use vstd::prelude::*;
use vstd::string::StrSliceExecFns;

use crate::ast::{Expr, Statement};
use crate::deps::{acyclic, depends, DependencyGraph};
use crate::instr::{CompileError, Instr, ValType};
use crate::memory::{copy_code, store_code, Memory, MemoryValue, MEMORY_BYTES};
use crate::symbol::{
    builtin_schemas, copy_string, is_first_index, mirror_insert, mirror_update, text, with_export,
    with_image, AttrView, Attribute, SymbolTable, TrackerView, MATERIAL_WORDS,
};

verus! {

/// The state of code generation, as mathematical values.
pub struct CgView {
    /// The entry function's body so far.
    pub code: Seq<Instr>,
    /// Local slots allocated so far; the next one gets this index.
    pub locals: u32,
    pub table: Map<Seq<char>, AttrView>,
    pub tracker: TrackerView,
    /// First byte of memory past every allocated material record.
    pub cursor: nat,
    pub memory_id: u32,
    /// Functions imported; a call names one below this index.
    pub imports: u32,
    /// Alias edges, `(child, parent)`.
    pub edges: Seq<(Seq<char>, Seq<char>)>,
}

/// Everything code generation reads and writes while it compiles one entry
/// function.
pub struct Codegen {
    pub code: Vec<Instr>,
    pub locals: u32,
    pub symbol_table: SymbolTable,
    pub memory: Memory,
    pub imports: u32,
    pub aliases: DependencyGraph,
}

impl View for Codegen {
    type V = CgView;

    open spec fn view(&self) -> CgView {
        CgView {
            code: self.code@,
            locals: self.locals,
            table: self.symbol_table.table(),
            tracker: self.symbol_table.tracker(),
            cursor: self.memory.cursor(),
            memory_id: self.memory.memory_id(),
            imports: self.imports,
            edges: self.aliases.edges(),
        }
    }
}

/// Bytes of one material record.
pub open spec fn record_bytes() -> nat {
    4 * MATERIAL_WORDS as nat
}

/// An instruction that names only existing locals and functions.
pub open spec fn instr_ok(i: Instr, locals: u32, imports: u32) -> bool {
    match i {
        Instr::LocalGet(l) => l < locals,
        Instr::LocalSet(l) => l < locals,
        Instr::Call(f) => f < imports,
        _ => true,
    }
}

/// Code that names only existing locals and functions.
pub open spec fn code_ok(code: Seq<Instr>, locals: u32, imports: u32) -> bool {
    forall|i: int| 0 <= i < code.len() ==> instr_ok(#[trigger] code[i], locals, imports)
}

/// The invariant of a code generation state: the code and every binding
/// name only existing locals and functions, every material record lies
/// below the cursor, the cursor inside memory, every known image id below
/// the largest one, and no variable depends on itself through aliases.
pub open spec fn state_ok(s: CgView) -> bool {
    &&& s.cursor <= MEMORY_BYTES
    &&& acyclic(s.edges)
    &&& code_ok(s.code, s.locals, s.imports)
    &&& forall|k: Seq<char>| #[trigger] s.table.contains_key(k) ==> attr_fits(s.table[k], s)
}

/// The invariant carries over to a state with the same bindings, more
/// locals and functions, and a cursor moved forward within memory.
pub proof fn lemma_state_grows(s: CgView, t: CgView)
    requires
        state_ok(s),
        t.table == s.table,
        t.edges == s.edges,
        s.locals <= t.locals,
        s.imports <= t.imports,
        s.cursor <= t.cursor <= MEMORY_BYTES,
        code_ok(t.code, t.locals, t.imports),
    ensures
        state_ok(t),
{
    assert forall|x: Seq<char>| #[trigger] t.table.contains_key(x) implies attr_fits(t.table[x], t) by {
        assert(s.table.contains_key(x));
    }
}

pub proof fn lemma_code_ok_append(a: Seq<Instr>, b: Seq<Instr>, locals: u32, imports: u32)
    requires
        code_ok(a, locals, imports),
        code_ok(b, locals, imports),
    ensures
        code_ok(a + b, locals, imports),
{
    assert forall|i: int| 0 <= i < (a + b).len() implies instr_ok(#[trigger] (a + b)[i], locals, imports) by {
        if i >= a.len() {
            assert((a + b)[i] == b[i - a.len()]);
        }
    }
}

/// Values whose locals exist.
pub open spec fn values_ok(vals: Seq<MemoryValue>, locals: u32) -> bool {
    forall|i: int| 0 <= i < vals.len() ==> (#[trigger] vals[i] matches MemoryValue::Local(l) ==> l < locals)
}

pub proof fn lemma_store_code_ok(start: int, vals: Seq<MemoryValue>, locals: u32, imports: u32)
    requires
        values_ok(vals, locals),
    ensures
        code_ok(store_code(start, vals), locals, imports),
    decreases vals.len(),
{
    if vals.len() > 0 {
        let n = vals.len() - 1;
        let prefix = vals.subrange(0, n);
        assert(values_ok(prefix, locals)) by {
            assert forall|i: int| 0 <= i < prefix.len() implies (#[trigger] prefix[i] matches MemoryValue::Local(l) ==> l < locals) by {
                assert(prefix[i] == vals[i]);
            }
        }
        lemma_store_code_ok(start, prefix, locals, imports);
        let tail = seq![Instr::Const((start + 4 * n) as i32), crate::memory::push_value(vals[n]), Instr::Store];
        assert(vals[n] matches MemoryValue::Local(l) ==> l < locals);
        assert(code_ok(tail, locals, imports));
        lemma_code_ok_append(store_code(start, prefix), tail, locals, imports);
    }
}

pub proof fn lemma_copy_code_ok(dst: int, src: int, n: nat, locals: u32, imports: u32)
    ensures
        code_ok(copy_code(dst, src, n), locals, imports),
    decreases n,
{
    if n > 0 {
        let k = (n - 1) as nat;
        lemma_copy_code_ok(dst, src, k, locals, imports);
        let tail = seq![
            Instr::Const((dst + 4 * k) as i32),
            Instr::Const((src + 4 * k) as i32),
            Instr::Load,
            Instr::Store,
        ];
        assert(code_ok(tail, locals, imports));
        lemma_code_ok_append(copy_code(dst, src, k), tail, locals, imports);
    }
}

impl Codegen {
    pub open spec fn wf(&self) -> bool {
        &&& self.symbol_table.wf()
        &&& state_ok(self@)
    }

    /// Appends two instructions.
    pub fn push2(&mut self, a: Instr, b: Instr)
        requires
            old(self).wf(),
            instr_ok(a, old(self).locals, old(self).imports),
            instr_ok(b, old(self).locals, old(self).imports),
        ensures
            final(self).wf(),
            final(self)@ == emit(old(self)@, seq![a, b]),
    {
        self.code.push(a);
        self.code.push(b);
        assert(self.code@ =~= old(self).code@ + seq![a, b]);
        proof {
            let t = seq![a, b];
            assert(code_ok(t, self.locals, self.imports));
            lemma_code_ok_append(old(self).code@, t, self.locals, self.imports);
            lemma_state_grows(old(self)@, self@);
        }
    }

    /// Allocates the next local slot.
    pub fn new_local(&mut self) -> (r: u32)
        requires
            old(self).wf(),
            old(self).locals < u32::MAX,
        ensures
            final(self).wf(),
            r == old(self).locals,
            final(self)@ == (CgView { locals: (old(self).locals + 1) as u32, ..old(self)@ }),
    {
        let l = self.locals;
        self.locals = l + 1;
        proof {
            assert forall|x: Seq<char>| #[trigger] self@.table.contains_key(x) implies attr_fits(
                self@.table[x],
                self@,
            ) by {
                assert(old(self)@.table.contains_key(x));
            }
            assert forall|i: int| 0 <= i < self@.code.len() implies instr_ok(
                #[trigger] self@.code[i],
                self.locals,
                self.imports,
            ) by {
                assert(instr_ok(old(self)@.code[i], old(self).locals, old(self).imports));
            }
        }
        l
    }

    /// Sets how many functions the module imports, before any is bound.
    pub fn set_imports(&mut self, n: u32)
        requires
            old(self).wf(),
            old(self).imports <= n,
        ensures
            final(self).wf(),
            final(self)@ == (CgView { imports: n, ..old(self)@ }),
    {
        self.imports = n;
        proof {
            assert forall|x: Seq<char>| #[trigger] self@.table.contains_key(x) implies attr_fits(
                self@.table[x],
                self@,
            ) by {
                assert(old(self)@.table.contains_key(x));
            }
            assert forall|i: int| 0 <= i < self@.code.len() implies instr_ok(
                #[trigger] self@.code[i],
                self.locals,
                self.imports,
            ) by {
                assert(instr_ok(old(self)@.code[i], old(self).locals, old(self).imports));
            }
        }
    }

    /// Emits a store of `values` into memory; see `Memory::store`.
    pub fn store_words(&mut self, offset: Option<u32>, values: &Vec<MemoryValue>) -> (r: (u32, u32))
        requires
            old(self).wf(),
            old(self).memory.start_of(offset) + 4 * values@.len() <= MEMORY_BYTES,
            values_ok(values@, old(self).locals),
        ensures
            final(self).wf(),
            r.0 == old(self)@.memory_id,
            r.1 == old(self).memory.start_of(offset),
            final(self)@ == (CgView {
                code: old(self)@.code + store_code(r.1 as int, values@),
                cursor: if old(self)@.cursor >= r.1 + 4 * values@.len() {
                    old(self)@.cursor
                } else {
                    (r.1 + 4 * values@.len()) as nat
                },
                ..old(self)@
            }),
    {
        let r = self.memory.store(&mut self.code, offset, values);
        proof {
            lemma_store_code_ok(r.1 as int, values@, self.locals, self.imports);
            lemma_code_ok_append(old(self).code@, store_code(r.1 as int, values@), self.locals, self.imports);
            assert forall|x: Seq<char>| #[trigger] self@.table.contains_key(x) implies attr_fits(
                self@.table[x],
                self@,
            ) by {
                assert(old(self)@.table.contains_key(x));
            }
        }
        r
    }

    /// Emits a copy of `length` words; see `Memory::copy`.
    pub fn copy_words(&mut self, dst: u32, src: u32, length: u32)
        requires
            old(self).wf(),
            dst + 4 * length <= MEMORY_BYTES,
            src + 4 * length <= MEMORY_BYTES,
        ensures
            final(self).wf(),
            final(self)@ == emit(old(self)@, copy_code(dst as int, src as int, length as nat)),
    {
        self.memory.copy(&mut self.code, dst, src, length);
        proof {
            lemma_copy_code_ok(dst as int, src as int, length as nat, self.locals, self.imports);
            lemma_code_ok_append(
                old(self).code@,
                copy_code(dst as int, src as int, length as nat),
                self.locals,
                self.imports,
            );
            lemma_state_grows(old(self)@, self@);
        }
    }

    /// Binds `name` to `attr` in the symbol table.
    pub fn bind(&mut self, name: String, attr: Attribute)
        requires
            old(self).wf(),
            attr_fits(attr@, old(self)@),
        ensures
            final(self).wf(),
            final(self)@ == bind(old(self)@, name@, attr@),
    {
        let ghost k = name@;
        self.symbol_table.insert(name, attr);
        proof {
            assert forall|x: Seq<char>| #[trigger] self@.table.contains_key(x) implies attr_fits(
                self@.table[x],
                self@,
            ) by {
                if x != k {
                    assert(old(self)@.table.contains_key(x));
                }
            }
        }
    }

    /// Rebinds the bound name `name` to `attr`.
    pub fn rebind(&mut self, name: &String, attr: Attribute)
        requires
            old(self).wf(),
            old(self)@.table.contains_key(name@),
            attr_fits(attr@, old(self)@),
        ensures
            final(self).wf(),
            final(self)@ == rebind(old(self)@, name@, attr@),
    {
        let _ = self.symbol_table.update(name, attr);
        proof {
            assert forall|x: Seq<char>| #[trigger] self@.table.contains_key(x) implies attr_fits(
                self@.table[x],
                self@,
            ) by {
                if x != name@ {
                    assert(old(self)@.table.contains_key(x));
                }
            }
        }
    }

    /// Removes the binding of `name`, as a failed statement does.
    pub fn unbind(&mut self, name: &String)
        requires
            old(self).wf(),
        ensures
            final(self).wf(),
            final(self).imports == old(self).imports,
            final(self)@ == unbound(old(self)@, name@),
    {
        self.symbol_table.remove(name);
        proof {
            assert forall|x: Seq<char>| #[trigger] self@.table.contains_key(x) implies attr_fits(
                self@.table[x],
                self@,
            ) by {
                assert(old(self)@.table.contains_key(x));
            }
        }
    }

    /// Records that `child` was bound from `parent`, unless that closes a
    /// cycle.
    pub fn add_alias(&mut self, child: &String, parent: &String) -> (r: Result<(), CompileError>)
        requires
            old(self).wf(),
        ensures
            final(self).wf(),
            final(self).imports == old(self).imports,
            outcome(alias(old(self)@, child@, parent@), r, final(self)@),
            alias(old(self)@, child@, parent@) is Err ==> final(self)@ == old(self)@,
    {
        if self.aliases.add_alias(child, parent) {
            Ok(())
        } else {
            Err(CompileError::DependencyCycle)
        }
    }

    /// Appends one instruction.
    pub fn push(&mut self, i: Instr)
        requires
            old(self).wf(),
            instr_ok(i, old(self).locals, old(self).imports),
        ensures
            final(self).wf(),
            final(self)@ == emit(old(self)@, seq![i]),
    {
        self.code.push(i);
        assert(self.code@ =~= old(self).code@ + seq![i]);
        proof {
            assert(code_ok(seq![i], self.locals, self.imports));
            lemma_code_ok_append(old(self).code@, seq![i], self.locals, self.imports);
            lemma_state_grows(old(self)@, self@);
        }
    }
}

pub open spec fn emit(s: CgView, code: Seq<Instr>) -> CgView {
    CgView { code: s.code + code, ..s }
}

/// The state after reserving an image id for a call's result.
pub open spec fn reserve(s: CgView) -> CgView {
    CgView { tracker: with_image(s.tracker, None, None), ..s }
}

/// The state after code generation that ended in `r`, given what the
/// specification says of it.
pub open spec fn outcome(spec: Result<CgView, CompileError>, r: Result<(), CompileError>, post: CgView) -> bool {
    match spec {
        Ok(s) => r is Ok && post == s,
        Err(e) => r == Err::<(), CompileError>(e),
    }
}

/// Code generation for an expression: the value it leaves on the stack.
pub open spec fn expr_gen(e: Expr, s: CgView) -> Result<CgView, CompileError>
    decreases e, 1int,
{
    match e {
        Expr::Number(n) => Ok(emit(s, seq![Instr::Const(n)])),
        Expr::Variable(id) => if !s.table.contains_key(id@) {
            Err(CompileError::UndefinedReference)
        } else {
            match s.table[id@] {
                AttrView::Number(l) => Ok(emit(s, seq![Instr::LocalGet(l)])),
                AttrView::Image(l, _) => Ok(emit(s, seq![Instr::LocalGet(l)])),
                _ => Err(CompileError::TypeMismatch),
            }
        },
        Expr::Op(l, op, r) => match expr_gen(*l, s) {
            Err(x) => Err(x),
            Ok(s1) => match expr_gen(*r, s1) {
                Err(x) => Err(x),
                Ok(s2) => Ok(emit(s2, seq![Instr::Binary(op)])),
            },
        },
        Expr::Call(name, args) => if !s.table.contains_key(name@) {
            Err(CompileError::UndefinedReference)
        } else {
            match s.table[name@] {
                AttrView::Func(f, params, _) => if args@.len() != params.len() {
                    Err(CompileError::ArityMismatch)
                } else {
                    match args_gen(args@, params, s) {
                        Err(x) => Err(x),
                        Ok(s1) => if s1.tracker.next_id >= i32::MAX {
                            Err(CompileError::LimitExceeded)
                        } else {
                            Ok(reserve(emit(s1, seq![Instr::Call(f)])))
                        },
                    }
                },
                _ => Err(CompileError::TypeMismatch),
            }
        },
        Expr::Error => Err(CompileError::UnsupportedForm),
    }
}

/// Code generation for a call's arguments, left to right.
pub open spec fn args_gen(args: Seq<Box<Expr>>, params: Seq<ValType>, s: CgView) -> Result<
    CgView,
    CompileError,
>
    decreases args, 0int,
{
    if args.len() == 0 {
        Ok(s)
    } else {
        match args_gen(args.subrange(0, args.len() - 1), params, s) {
            Err(x) => Err(x),
            Ok(s1) => arg_gen(*args[args.len() - 1], params[args.len() - 1], s1),
        }
    }
}

/// Code generation for one argument: a variable must hold a number or an
/// image and fill a 32-bit parameter.
pub open spec fn arg_gen(a: Expr, param: ValType, s: CgView) -> Result<CgView, CompileError>
    decreases a, 2int,
{
    match a {
        Expr::Variable(id) => if !s.table.contains_key(id@) {
            Err(CompileError::UndefinedReference)
        } else if param == ValType::I32 && (s.table[id@] is Number || s.table[id@] is Image) {
            expr_gen(a, s)
        } else {
            Err(CompileError::TypeMismatch)
        },
        _ => expr_gen(a, s),
    }
}

/// The state in which code generation for `e` stops when it fails: what
/// was emitted before the failure stays, nothing after it is emitted.
pub open spec fn expr_fail(e: Expr, s: CgView) -> CgView
    decreases e, 1int,
{
    match e {
        Expr::Op(l, _, r) => match expr_gen(*l, s) {
            Err(_) => expr_fail(*l, s),
            Ok(s1) => expr_fail(*r, s1),
        },
        Expr::Call(name, args) => if s.table.contains_key(name@) && s.table[name@] is Func
            && args@.len() == s.table[name@]->Func_1.len() {
            match args_gen(args@, s.table[name@]->Func_1, s) {
                Err(_) => args_fail(args@, s.table[name@]->Func_1, s),
                Ok(s1) => s1,
            }
        } else {
            s
        },
        _ => s,
    }
}

/// The state in which code generation for a call's arguments stops when one
/// of them fails.
pub open spec fn args_fail(args: Seq<Box<Expr>>, params: Seq<ValType>, s: CgView) -> CgView
    decreases args, 0int,
{
    if args.len() == 0 {
        s
    } else {
        match args_gen(args.subrange(0, args.len() - 1), params, s) {
            Err(_) => args_fail(args.subrange(0, args.len() - 1), params, s),
            Ok(s1) => arg_fail(*args[args.len() - 1], params[args.len() - 1], s1),
        }
    }
}

/// The state in which code generation for one argument stops when it fails;
/// a variable of the wrong kind is found before anything is emitted.
pub open spec fn arg_fail(a: Expr, param: ValType, s: CgView) -> CgView
    decreases a, 2int,
{
    match a {
        Expr::Variable(_) => s,
        _ => expr_fail(a, s),
    }
}

/// Storage kinds a declaration can name.
#[derive(Clone, Copy, Debug, PartialEq, Eq, Structural)]
pub enum VarKind {
    Number,
    Image,
    Material,
}

/// The storage kind a declaration's type tag names, in any of its spellings.
pub open spec fn kind_of_tag(t: Seq<char>) -> Option<VarKind> {
    if t == "N"@ || t == "Number"@ || t == "n"@ || t == "number"@ {
        Some(VarKind::Number)
    } else if t == "I"@ || t == "Image"@ || t == "i"@ || t == "image"@ {
        Some(VarKind::Image)
    } else if t == "M"@ || t == "Material"@ || t == "m"@ || t == "material"@ {
        Some(VarKind::Material)
    } else {
        None
    }
}

pub open spec fn is_digit(c: char) -> bool {
    '0' <= c && c <= '9'
}

/// The value of a string of decimal digits.
pub open spec fn digits_value(d: Seq<char>) -> int
    decreases d.len(),
{
    if d.len() == 0 {
        0
    } else {
        digits_value(d.drop_last()) * 10 + (d.last() as u32 - '0' as u32)
    }
}

/// Text that reads as a 32-bit integer: an optional `+` or `-`, then one or
/// more ASCII digits whose value, with the sign, lies in the `i32` range.
pub open spec fn parses_as_i32(s: Seq<char>) -> bool {
    let signed = s.len() > 0 && (s[0] == '-' || s[0] == '+');
    let digits = if signed {
        s.drop_first()
    } else {
        s
    };
    &&& digits.len() > 0
    &&& forall|i: int| 0 <= i < digits.len() ==> is_digit(#[trigger] digits[i])
    &&& if signed && s[0] == '-' {
        digits_value(digits) <= 0x8000_0000
    } else {
        digits_value(digits) <= 0x7fff_ffff
    }
}

/// Relies on `str::parse::<i32>`: it accepts exactly an optional sign and
/// ASCII digits whose value fits `i32`.
#[verifier::external_body]
fn parses_as_integer(s: &String) -> (r: bool)
    ensures
        r == parses_as_i32(s@),
{
    s.parse::<i32>().is_ok()
}

/// Whether `s` has exactly the characters of `lit`.
pub fn equals_text(s: &String, lit: &str) -> (r: bool)
    ensures
        r == (s@ == lit@),
{
    let a = s.as_str();
    let n = a.unicode_len();
    if n != lit.unicode_len() {
        return false;
    }
    let mut i: usize = 0;
    while i < n
        invariant
            n == a@.len(),
            n == lit@.len(),
            a@ == s@,
            i <= n,
            forall|j: int| 0 <= j < i ==> a@[j] == lit@[j],
        decreases n - i,
    {
        if a.get_char(i) != lit.get_char(i) {
            return false;
        }
        i = i + 1;
    }
    assert(a@ =~= lit@);
    true
}

/// The storage kind a type tag names.
pub fn normalize_type(tag: &String) -> (r: Option<VarKind>)
    ensures
        r == kind_of_tag(tag@),
{
    if equals_text(tag, "N") || equals_text(tag, "Number") || equals_text(tag, "n")
        || equals_text(tag, "number") {
        Some(VarKind::Number)
    } else if equals_text(tag, "I") || equals_text(tag, "Image") || equals_text(tag, "i")
        || equals_text(tag, "image") {
        Some(VarKind::Image)
    } else if equals_text(tag, "M") || equals_text(tag, "Material") || equals_text(tag, "m")
        || equals_text(tag, "material") {
        Some(VarKind::Material)
    } else {
        None
    }
}

/// The type a new material starts with.
pub open spec fn default_material_type() -> Seq<char> {
    "PBRMetalness"@
}

/// The words of a fresh material record: all of them unset.
pub open spec fn unset_record() -> Seq<MemoryValue> {
    Seq::new(MATERIAL_WORDS as nat, |i: int| MemoryValue::Const(i32::MAX))
}

/// The state after recording that `child` was bound from `parent`, unless
/// that closes a cycle.
pub open spec fn alias(s: CgView, child: Seq<char>, parent: Seq<char>) -> Result<CgView, CompileError> {
    if depends(s.edges, parent, child) {
        Err(CompileError::DependencyCycle)
    } else {
        Ok(CgView { edges: s.edges.push((child, parent)), ..s })
    }
}

/// A binding that keeps the state's invariant: its slot or function exists,
/// a material lies below the cursor, an image id below the largest one.
pub open spec fn attr_fits(a: AttrView, s: CgView) -> bool {
    match a {
        AttrView::Number(l) => l < s.locals,
        AttrView::Image(l, meta) => l < s.locals && (meta matches Some(img) ==> img.id < i32::MAX),
        AttrView::Material(_, offset, _) => offset + record_bytes() <= s.cursor,
        AttrView::Func(f, _, _) => f < s.imports,
        _ => true,
    }
}

/// The state after binding `name` to `a`.
pub open spec fn bind(s: CgView, name: Seq<char>, a: AttrView) -> CgView {
    CgView { table: s.table.insert(name, a), tracker: mirror_insert(s.tracker, name, a), ..s }
}

/// The state after rebinding the bound name `name` to `a`.
pub open spec fn rebind(s: CgView, name: Seq<char>, a: AttrView) -> CgView {
    CgView { table: s.table.insert(name, a), tracker: mirror_update(s.tracker, name, a), ..s }
}

/// The byte offset of channel `ch` of the material at `offset` with type `t`.
pub open spec fn channel_offset(offset: u32, t: Seq<char>, ch: Seq<char>) -> int {
    offset + 8 + 4 * choose|i: int| is_first_index(builtin_schemas()[t].1, ch, i)
}

/// Code generation for a statement.
pub open spec fn stmt_gen(st: Statement, s: CgView) -> Result<CgView, CompileError>
    decreases st, 1int,
{
    match st {
        Statement::Declare(id, tag, init) => declare_gen(id@, tag@, init, s),
        Statement::Assignment(path, e) => if path@.len() == 2 {
            channel_gen(path@[0]@, path@[1]@, *e, s)
        } else if path@.len() == 1 {
            assign_gen(path@[0]@, *e, s)
        } else {
            Err(CompileError::UnsupportedForm)
        },
        Statement::Block(stmts) => stmts_gen(stmts@, s),
        Statement::Call(name, args) => if name@ == "logger"@ {
            Ok(s)
        } else if name@ == "show"@ {
            show_gen(args@, s)
        } else {
            Err(CompileError::UnsupportedForm)
        },
    }
}

/// Code generation for statements in order; the first failure ends it.
pub open spec fn stmts_gen(ss: Seq<Statement>, s: CgView) -> Result<CgView, CompileError>
    decreases ss, 0int,
{
    if ss.len() == 0 {
        Ok(s)
    } else {
        match stmts_gen(ss.subrange(0, ss.len() - 1), s) {
            Err(x) => Err(x),
            Ok(s1) => stmt_gen(ss[ss.len() - 1], s1),
        }
    }
}

/// `show(...)`: each argument that names an image is marked for export.
pub open spec fn show_gen(args: Seq<Box<Expr>>, s: CgView) -> Result<CgView, CompileError>
    decreases args.len(),
{
    if args.len() == 0 {
        Ok(s)
    } else {
        match show_gen(args.subrange(0, args.len() - 1), s) {
            Err(x) => Err(x),
            Ok(s1) => match *args[args.len() - 1] {
                Expr::Variable(v) => if !s1.table.contains_key(v@) {
                    Err(CompileError::UndefinedReference)
                } else if s1.table[v@] is Image {
                    Ok(CgView { tracker: with_export(s1.tracker, v@), ..s1 })
                } else {
                    Ok(s1)
                },
                _ => Ok(s1),
            },
        }
    }
}

/// Declaration of `id` with type tag `tag` and an optional initializer.
pub open spec fn declare_gen(id: Seq<char>, tag: Seq<char>, init: Option<Box<Expr>>, s: CgView) -> Result<
    CgView,
    CompileError,
> {
    if parses_as_i32(id) {
        Err(CompileError::LexicalNaming)
    } else {
        match kind_of_tag(tag) {
            None => Err(CompileError::UnsupportedForm),
            Some(VarKind::Number) => if s.locals == u32::MAX {
                Err(CompileError::LimitExceeded)
            } else {
                let l = s.locals;
                let s1 = bind(CgView { locals: (l + 1) as u32, ..s }, id, AttrView::Number(l));
                match init {
                    None => Ok(s1),
                    Some(e) => match *e {
                        Expr::Variable(v) => if !s1.table.contains_key(v@) {
                            Err(CompileError::UndefinedReference)
                        } else {
                            match s1.table[v@] {
                                AttrView::Number(lv) => match alias(s1, id, v@) {
                                    Err(x) => Err(x),
                                    Ok(s2) => Ok(emit(s2, seq![Instr::LocalGet(lv), Instr::LocalSet(l)])),
                                },
                                _ => Err(CompileError::TypeMismatch),
                            }
                        },
                        Expr::Number(_) | Expr::Op(_, _, _) => match expr_gen(*e, s1) {
                            Err(x) => Err(x),
                            Ok(s2) => Ok(emit(s2, seq![Instr::LocalSet(l)])),
                        },
                        _ => Err(CompileError::TypeMismatch),
                    },
                }
            },
            Some(VarKind::Image) => if s.locals == u32::MAX {
                Err(CompileError::LimitExceeded)
            } else {
                let l = s.locals;
                let s0 = CgView { locals: (l + 1) as u32, ..s };
                match init {
                    None => Ok(bind(s0, id, AttrView::Image(l, None))),
                    Some(e) => match *e {
                        Expr::Variable(v) => if !s0.table.contains_key(v@) {
                            Err(CompileError::UndefinedReference)
                        } else {
                            match s0.table[v@] {
                                AttrView::Image(rl, meta) => match alias(s0, id, v@) {
                                    Err(x) => Err(x),
                                    Ok(s2) => Ok(
                                        bind(
                                            emit(s2, seq![Instr::LocalGet(rl), Instr::LocalSet(l)]),
                                            id,
                                            AttrView::Image(l, meta),
                                        ),
                                    ),
                                },
                                _ => Err(CompileError::TypeMismatch),
                            }
                        },
                        Expr::Call(_, _) => assign_gen(id, *e, bind(s0, id, AttrView::Image(l, None))),
                        _ => Err(CompileError::TypeMismatch),
                    },
                }
            },
            Some(VarKind::Material) => if s.cursor + record_bytes() > MEMORY_BYTES {
                Err(CompileError::LimitExceeded)
            } else {
                let offset = s.cursor;
                let s1 = CgView {
                    code: s.code + store_code(offset as int, unset_record()),
                    cursor: offset + record_bytes(),
                    ..s
                };
                let s2 = bind(
                    s1,
                    id,
                    AttrView::Material(s.memory_id, offset as u32, default_material_type()),
                );
                match init {
                    None => Ok(s2),
                    Some(e) => assign_gen(id, *e, s2),
                }
            },
        }
    }
}

/// Assignment to channel `ch` of material `m`.
pub open spec fn channel_gen(m: Seq<char>, ch: Seq<char>, e: Expr, s: CgView) -> Result<CgView, CompileError> {
    if !s.table.contains_key(m) {
        Err(CompileError::UndefinedReference)
    } else {
        match s.table[m] {
            AttrView::Material(_, offset, t) => if !(builtin_schemas().contains_key(t)
                && builtin_schemas()[t].1.contains(ch)) {
                Err(CompileError::UnknownChannel)
            } else {
                let target = channel_offset(offset, t, ch);
                match e {
                    Expr::Variable(v) => if !s.table.contains_key(v@) {
                        Err(CompileError::UndefinedReference)
                    } else {
                        match s.table[v@] {
                            AttrView::Image(rl, _) => Ok(
                                emit(s, store_code(target, seq![MemoryValue::Local(rl)])),
                            ),
                            _ => Err(CompileError::TypeMismatch),
                        }
                    },
                    Expr::Call(f, _) => if !s.table.contains_key(f@) {
                        Err(CompileError::UndefinedReference)
                    } else {
                        match s.table[f@] {
                            AttrView::Func(_, _, results) => if results == seq![ValType::I32] {
                                match expr_gen(e, emit(s, seq![Instr::Const(target as i32)])) {
                                    Err(x) => Err(x),
                                    Ok(s2) => Ok(emit(s2, seq![Instr::Store])),
                                }
                            } else {
                                Err(CompileError::TypeMismatch)
                            },
                            _ => Err(CompileError::TypeMismatch),
                        }
                    },
                    _ => Err(CompileError::TypeMismatch),
                }
            },
            _ => Err(CompileError::TypeMismatch),
        }
    }
}

/// Assignment to the variable `id`, by the kind it is bound to.
pub open spec fn assign_gen(id: Seq<char>, e: Expr, s: CgView) -> Result<CgView, CompileError> {
    if !s.table.contains_key(id) {
        Err(CompileError::UndefinedReference)
    } else {
        match s.table[id] {
            AttrView::Number(l) => match e {
                Expr::Variable(v) => if !s.table.contains_key(v@) {
                    Err(CompileError::UndefinedReference)
                } else {
                    match s.table[v@] {
                        AttrView::Number(rl) => match alias(s, id, v@) {
                            Err(x) => Err(x),
                            Ok(s2) => Ok(emit(s2, seq![Instr::LocalGet(rl), Instr::LocalSet(l)])),
                        },
                        _ => Err(CompileError::TypeMismatch),
                    }
                },
                Expr::Number(_) | Expr::Op(_, _, _) => match expr_gen(e, s) {
                    Err(x) => Err(x),
                    Ok(s2) => Ok(emit(s2, seq![Instr::LocalSet(l)])),
                },
                _ => Err(CompileError::TypeMismatch),
            },
            AttrView::Image(l, _) => match e {
                Expr::Variable(v) => if !s.table.contains_key(v@) {
                    Err(CompileError::UndefinedReference)
                } else {
                    match s.table[v@] {
                        AttrView::Image(rl, meta) => match alias(s, id, v@) {
                            Err(x) => Err(x),
                            Ok(s2) => Ok(
                                rebind(
                                    emit(s2, seq![Instr::LocalGet(rl), Instr::LocalSet(l)]),
                                    id,
                                    AttrView::Image(l, meta),
                                ),
                            ),
                        },
                        _ => Err(CompileError::TypeMismatch),
                    }
                },
                Expr::Call(f, _) => if !s.table.contains_key(f@) {
                    Err(CompileError::UndefinedReference)
                } else {
                    match s.table[f@] {
                        AttrView::Func(_, _, results) => if results == seq![ValType::I32] {
                            match expr_gen(e, s) {
                                Err(x) => Err(x),
                                Ok(s2) => Ok(
                                    emit(
                                        rebind(s2, id, AttrView::Image(l, None)),
                                        seq![Instr::LocalSet(l)],
                                    ),
                                ),
                            }
                        } else {
                            Err(CompileError::TypeMismatch)
                        },
                        _ => Err(CompileError::TypeMismatch),
                    }
                },
                _ => Err(CompileError::TypeMismatch),
            },
            AttrView::Material(_, left, _) => match e {
                Expr::Variable(v) => if !s.table.contains_key(v@) {
                    Err(CompileError::UndefinedReference)
                } else {
                    match s.table[v@] {
                        AttrView::Material(_, right, _) => match alias(s, id, v@) {
                            Err(x) => Err(x),
                            Ok(s2) => Ok(
                                emit(s2, copy_code(left as int, right as int, MATERIAL_WORDS as nat)),
                            ),
                        },
                        _ => Err(CompileError::TypeMismatch),
                    }
                },
                Expr::Call(f, args) => if f@ != "new_material"@ {
                    Err(CompileError::TypeMismatch)
                } else if args@.len() != 2 {
                    Err(CompileError::ArityMismatch)
                } else {
                    match (*args@[0], *args@[1]) {
                        (Expr::Number(w), Expr::Number(h)) => Ok(
                            emit(
                                s,
                                store_code(left as int, seq![MemoryValue::Const(w)]) + store_code(
                                    left + 4,
                                    seq![MemoryValue::Const(h)],
                                ),
                            ),
                        ),
                        _ => Err(CompileError::TypeMismatch),
                    }
                },
                _ => Err(CompileError::TypeMismatch),
            },
            _ => Err(CompileError::TypeMismatch),
        }
    }
}

/// The state with `name` unbound again, as a failed declaration leaves it.
pub open spec fn unbound(s: CgView, name: Seq<char>) -> CgView {
    CgView { table: s.table.remove(name), ..s }
}

/// The state in which an assignment to `id` stops when it fails: only a
/// failing right-hand expression has emitted anything.
pub open spec fn assign_fail(id: Seq<char>, e: Expr, s: CgView) -> CgView {
    if !s.table.contains_key(id) {
        s
    } else {
        match s.table[id] {
            AttrView::Number(_) => match e {
                Expr::Number(_) | Expr::Op(_, _, _) => expr_fail(e, s),
                _ => s,
            },
            AttrView::Image(_, _) => match e {
                Expr::Call(f, _) => if s.table.contains_key(f@) && s.table[f@] is Func
                    && s.table[f@]->Func_2 == seq![ValType::I32] {
                    expr_fail(e, s)
                } else {
                    s
                },
                _ => s,
            },
            _ => s,
        }
    }
}

/// The state in which an assignment to a material channel stops when it
/// fails: only a failing call, after the target address, has emitted
/// anything.
pub open spec fn channel_fail(m: Seq<char>, ch: Seq<char>, e: Expr, s: CgView) -> CgView {
    if s.table.contains_key(m) && s.table[m] is Material && builtin_schemas().contains_key(
        s.table[m]->Material_2,
    ) && builtin_schemas()[s.table[m]->Material_2].1.contains(ch) {
        match e {
            Expr::Call(f, _) => if s.table.contains_key(f@) && s.table[f@] is Func
                && s.table[f@]->Func_2 == seq![ValType::I32] {
                let target = channel_offset(s.table[m]->Material_1, s.table[m]->Material_2, ch);
                expr_fail(e, emit(s, seq![Instr::Const(target as i32)]))
            } else {
                s
            },
            _ => s,
        }
    } else {
        s
    }
}

/// The state in which `show(...)` stops when an argument is unbound: the
/// arguments before it are marked.
pub open spec fn show_fail(args: Seq<Box<Expr>>, s: CgView) -> CgView
    decreases args.len(),
{
    if args.len() == 0 {
        s
    } else {
        match show_gen(args.subrange(0, args.len() - 1), s) {
            Err(_) => show_fail(args.subrange(0, args.len() - 1), s),
            Ok(s1) => s1,
        }
    }
}

/// The state in which a declaration stops when it fails. A name bound
/// before the failure is unbound again; a name never bound stays so.
pub open spec fn declare_fail(id: Seq<char>, tag: Seq<char>, init: Option<Box<Expr>>, s: CgView) -> CgView {
    if parses_as_i32(id) {
        s
    } else {
        match kind_of_tag(tag) {
            None => s,
            Some(VarKind::Number) => if s.locals == u32::MAX {
                s
            } else {
                let l = s.locals;
                let s1 = bind(CgView { locals: (l + 1) as u32, ..s }, id, AttrView::Number(l));
                match init {
                    None => s1,
                    Some(e) => match *e {
                        Expr::Number(_) | Expr::Op(_, _, _) => unbound(expr_fail(*e, s1), id),
                        _ => unbound(s1, id),
                    },
                }
            },
            Some(VarKind::Image) => if s.locals == u32::MAX {
                s
            } else {
                let l = s.locals;
                let s0 = CgView { locals: (l + 1) as u32, ..s };
                match init {
                    Some(e) => match *e {
                        Expr::Call(_, _) => unbound(
                            assign_fail(id, *e, bind(s0, id, AttrView::Image(l, None))),
                            id,
                        ),
                        _ => s0,
                    },
                    None => s0,
                }
            },
            Some(VarKind::Material) => if s.cursor + record_bytes() > MEMORY_BYTES {
                s
            } else {
                let offset = s.cursor;
                let s1 = CgView {
                    code: s.code + store_code(offset as int, unset_record()),
                    cursor: offset + record_bytes(),
                    ..s
                };
                let s2 = bind(
                    s1,
                    id,
                    AttrView::Material(s.memory_id, offset as u32, default_material_type()),
                );
                match init {
                    None => s2,
                    Some(e) => unbound(assign_fail(id, *e, s2), id),
                }
            },
        }
    }
}

/// The state in which a statement stops when it fails.
pub open spec fn stmt_fail(st: Statement, s: CgView) -> CgView
    decreases st, 1int,
{
    match st {
        Statement::Declare(id, tag, init) => declare_fail(id@, tag@, init, s),
        Statement::Assignment(path, e) => if path@.len() == 2 {
            channel_fail(path@[0]@, path@[1]@, *e, s)
        } else if path@.len() == 1 {
            assign_fail(path@[0]@, *e, s)
        } else {
            s
        },
        Statement::Block(stmts) => stmts_fail(stmts@, s),
        Statement::Call(name, args) => if name@ == "show"@ {
            show_fail(args@, s)
        } else {
            s
        },
    }
}

/// The state in which statements in order stop at the first failure.
pub open spec fn stmts_fail(ss: Seq<Statement>, s: CgView) -> CgView
    decreases ss, 0int,
{
    if ss.len() == 0 {
        s
    } else {
        match stmts_gen(ss.subrange(0, ss.len() - 1), s) {
            Err(_) => stmts_fail(ss.subrange(0, ss.len() - 1), s),
            Ok(s1) => stmt_fail(ss[ss.len() - 1], s1),
        }
    }
}

/// The parts of the state an expression leaves alone.
pub open spec fn same_frame(s: CgView, t: CgView) -> bool {
    &&& t.table == s.table
    &&& t.locals == s.locals
    &&& t.cursor == s.cursor
    &&& t.memory_id == s.memory_id
    &&& t.imports == s.imports
    &&& t.edges == s.edges
}

/// Code generation for an expression changes only the code and the
/// tracker's image ids.
pub proof fn lemma_expr_frame(e: Expr, s: CgView)
    ensures
        expr_gen(e, s) matches Ok(t) ==> same_frame(s, t),
    decreases e, 1int,
{
    match e {
        Expr::Op(l, _, r) => {
            lemma_expr_frame(*l, s);
            if let Ok(s1) = expr_gen(*l, s) {
                lemma_expr_frame(*r, s1);
            }
        },
        Expr::Call(name, args) => {
            if s.table.contains_key(name@) {
                if let AttrView::Func(_, params, _) = s.table[name@] {
                    lemma_args_frame(args@, params, s);
                }
            }
        },
        _ => {},
    }
}

proof fn lemma_args_frame(args: Seq<Box<Expr>>, params: Seq<ValType>, s: CgView)
    ensures
        args_gen(args, params, s) matches Ok(t) ==> same_frame(s, t),
    decreases args, 0int,
{
    if args.len() > 0 {
        let prefix = args.subrange(0, args.len() - 1);
        lemma_args_frame(prefix, params, s);
        if let Ok(s1) = args_gen(prefix, params, s) {
            let a = *args[args.len() - 1];
            lemma_expr_frame(a, s1);
            assert(args_gen(args, params, s) == arg_gen(a, params[args.len() - 1], s1));
        }
    }
}

/// A failure among the first `i` arguments is the failure of them all.
proof fn lemma_args_failure(args: Seq<Box<Expr>>, params: Seq<ValType>, s: CgView, i: int)
    requires
        0 <= i <= args.len(),
        args_gen(args.subrange(0, i), params, s) is Err,
    ensures
        args_gen(args, params, s) == args_gen(args.subrange(0, i), params, s),
        args_fail(args, params, s) == args_fail(args.subrange(0, i), params, s),
    decreases args.len() - i,
{
    if i < args.len() {
        assert(args.subrange(0, i + 1).subrange(0, i) =~= args.subrange(0, i));
        lemma_args_failure(args, params, s, i + 1);
    } else {
        assert(args.subrange(0, i) =~= args);
    }
}

pub fn copy_types(v: &Vec<ValType>) -> (r: Vec<ValType>)
    ensures
        r@ == v@,
{
    let mut r: Vec<ValType> = Vec::new();
    let mut i: usize = 0;
    while i < v.len()
        invariant
            i <= v@.len(),
            r@ == v@.subrange(0, i as int),
        decreases v@.len() - i,
    {
        r.push(v[i]);
        assert(r@ =~= v@.subrange(0, i + 1));
        i = i + 1;
    }
    assert(r@ =~= v@);
    r
}

impl Expr {
    /// Emits code that leaves the expression's value on the stack. Every
    /// call reserves an image id for its result, whatever the function
    /// returns: a later image binding of the result takes the newest id.
    pub fn compile(&self, cg: &mut Codegen) -> (r: Result<(), CompileError>)
        requires
            old(cg).wf(),
        ensures
            final(cg).wf(),
            outcome(expr_gen(*self, old(cg)@), r, final(cg)@),
            expr_gen(*self, old(cg)@) is Err ==> final(cg)@ == expr_fail(*self, old(cg)@),
            final(cg).imports == old(cg).imports,
        decreases self,
    {
        match self {
            Expr::Number(n) => {
                cg.push(Instr::Const(*n));
                Ok(())
            },
            Expr::Variable(id) => {
                let slot = match cg.symbol_table.lookup(id) {
                    None => {
                        return Err(CompileError::UndefinedReference);
                    },
                    Some(Attribute::Number(l)) => *l,
                    Some(Attribute::Image(l, _)) => *l,
                    Some(_) => {
                        return Err(CompileError::TypeMismatch);
                    },
                };
                cg.push(Instr::LocalGet(slot));
                Ok(())
            },
            Expr::Op(l, op, r) => {
                match l.compile(cg) {
                    Err(e) => {
                        return Err(e);
                    },
                    Ok(()) => {},
                }
                match r.compile(cg) {
                    Err(e) => {
                        return Err(e);
                    },
                    Ok(()) => {},
                }
                cg.push(Instr::Binary(*op));
                Ok(())
            },
            Expr::Call(name, args) => {
                let (f, params) = match cg.symbol_table.lookup(name) {
                    None => {
                        return Err(CompileError::UndefinedReference);
                    },
                    Some(Attribute::Func(f, params, _)) => (*f, copy_types(params)),
                    Some(_) => {
                        return Err(CompileError::TypeMismatch);
                    },
                };
                if args.len() != params.len() {
                    return Err(CompileError::ArityMismatch);
                }
                let ghost s0 = cg@;
                proof {
                    assert(args@.subrange(0, 0) =~= Seq::<Box<Expr>>::empty());
                }
                let mut i: usize = 0;
                while i < args.len()
                    invariant
                        cg.wf(),
                        i <= args@.len(),
                        args@.len() == params@.len(),
                        s0 == old(cg)@,
                        cg.imports == old(cg).imports,
                        *self == Expr::Call(*name, *args),
                        s0.table.contains_key(name@),
                        s0.table[name@] is Func,
                        s0.table[name@]->Func_0 == f,
                        s0.table[name@]->Func_1 == params@,
                        args_gen(args@.subrange(0, i as int), params@, s0) == Ok::<
                            CgView,
                            CompileError,
                        >(cg@),
                    decreases args@.len() - i,
                {
                    let arg: &Expr = &args[i];
                    let ghost before = cg@;
                    proof {
                        assert(decreases_to!(*self => self->Call_1));
                        assert(self->Call_1 == *args);
                        assert(decreases_to!(*args => args@));
                        assert(decreases_to!(args@ => args@[i as int]));
                        assert(decreases_to!(*self => *arg));
                    }
                    let res = match arg {
                        Expr::Variable(v) => {
                            let fits = match cg.symbol_table.lookup(v) {
                                None => None,
                                Some(Attribute::Number(_)) => Some(params[i] == ValType::I32),
                                Some(Attribute::Image(_, _)) => Some(params[i] == ValType::I32),
                                Some(_) => Some(false),
                            };
                            match fits {
                                None => Err(CompileError::UndefinedReference),
                                Some(true) => arg.compile(cg),
                                Some(false) => Err(CompileError::TypeMismatch),
                            }
                        },
                        _ => arg.compile(cg),
                    };
                    proof {
                        let sub = args@.subrange(0, i + 1);
                        assert(sub.subrange(0, i as int) =~= args@.subrange(0, i as int));
                        assert(sub[i as int] == args@[i as int]);
                        assert(*arg == *args@[i as int]);
                        assert(args_gen(sub, params@, s0) == arg_gen(*arg, params@[i as int], before));
                    }
                    match res {
                        Err(e) => {
                            proof {
                                assert(args_fail(args@.subrange(0, i + 1), params@, s0) == arg_fail(
                                    *arg,
                                    params@[i as int],
                                    before,
                                ));
                                lemma_args_failure(args@, params@, s0, i + 1);
                            }
                            return Err(e);
                        },
                        Ok(()) => {},
                    }
                    i = i + 1;
                }
                proof {
                    assert(args@.subrange(0, args@.len() as int) =~= args@);
                    lemma_args_frame(args@, params@, s0);
                    assert(attr_fits(s0.table[name@], s0));
                }
                if cg.symbol_table.library_tracker().get_next_image_id() >= i32::MAX {
                    return Err(CompileError::LimitExceeded);
                }
                cg.push(Instr::Call(f));
                cg.symbol_table.reserve_image();
                Ok(())
            },
            Expr::Error => Err(CompileError::UnsupportedForm),
        }
    }
}

/// What an assignment writes to, by the kind its name is bound to.
enum Target {
    Number(u32),
    Image(u32),
    Material(u32),
}

/// Whether `results` is exactly one 32-bit value.
fn returns_scalar(results: &Vec<ValType>) -> (r: bool)
    ensures
        r == (results@ == seq![ValType::I32]),
{
    if results.len() == 1 && results[0] == ValType::I32 {
        assert(results@ =~= seq![ValType::I32]);
        true
    } else {
        false
    }
}

/// The result types of the function bound to `f`, if it is one.
fn func_results(cg: &Codegen, f: &String) -> (r: Result<Vec<ValType>, CompileError>)
    requires
        cg.wf(),
    ensures
        !cg@.table.contains_key(f@) ==> r == Err::<Vec<ValType>, CompileError>(
            CompileError::UndefinedReference,
        ),
        cg@.table.contains_key(f@) && !(cg@.table[f@] is Func) ==> r == Err::<
            Vec<ValType>,
            CompileError,
        >(CompileError::TypeMismatch),
        cg@.table.contains_key(f@) && cg@.table[f@] is Func ==> r is Ok && r->Ok_0@
            == cg@.table[f@]->Func_2,
{
    match cg.symbol_table.lookup(f) {
        None => Err(CompileError::UndefinedReference),
        Some(Attribute::Func(_, _, results)) => Ok(copy_types(results)),
        Some(_) => Err(CompileError::TypeMismatch),
    }
}

/// Emits an assignment to the variable `id`.
fn compile_assign(id: &String, e: &Expr, cg: &mut Codegen) -> (r: Result<(), CompileError>)
    requires
        old(cg).wf(),
    ensures
        final(cg).wf(),
        outcome(assign_gen(id@, *e, old(cg)@), r, final(cg)@),
            assign_gen(id@, *e, old(cg)@) is Err ==> final(cg)@ == assign_fail(id@, *e, old(cg)@),
            final(cg).imports == old(cg).imports,
{
    let target = match cg.symbol_table.lookup(id) {
        None => {
            return Err(CompileError::UndefinedReference);
        },
        Some(Attribute::Number(l)) => Target::Number(*l),
        Some(Attribute::Image(l, _)) => Target::Image(*l),
        Some(Attribute::Material(_, offset, _)) => Target::Material(*offset),
        Some(_) => {
            return Err(CompileError::TypeMismatch);
        },
    };
    proof {
        assert(old(cg)@.table.contains_key(id@));
    }
    match target {
        Target::Number(l) => match e {
            Expr::Variable(v) => {
                let rl = match cg.symbol_table.lookup(v) {
                    None => {
                        return Err(CompileError::UndefinedReference);
                    },
                    Some(Attribute::Number(rl)) => *rl,
                    Some(_) => {
                        return Err(CompileError::TypeMismatch);
                    },
                };
                match cg.add_alias(id, v) {
                    Err(x) => {
                        return Err(x);
                    },
                    Ok(()) => {},
                }
                cg.push2(Instr::LocalGet(rl), Instr::LocalSet(l));
                Ok(())
            },
            Expr::Number(_) | Expr::Op(_, _, _) => {
                proof {
                    lemma_expr_frame(*e, cg@);
                    assert(attr_fits(cg@.table[id@], cg@));
                }
                match e.compile(cg) {
                    Err(x) => {
                        return Err(x);
                    },
                    Ok(()) => {},
                }
                cg.push(Instr::LocalSet(l));
                Ok(())
            },
            _ => Err(CompileError::TypeMismatch),
        },
        Target::Image(l) => match e {
            Expr::Variable(v) => {
                let (rl, meta) = match cg.symbol_table.lookup(v) {
                    None => {
                        return Err(CompileError::UndefinedReference);
                    },
                    Some(Attribute::Image(rl, meta)) => (*rl, *meta),
                    Some(_) => {
                        return Err(CompileError::TypeMismatch);
                    },
                };
                proof {
                    assert(old(cg)@.table.contains_key(v@));
                }
                match cg.add_alias(id, v) {
                    Err(x) => {
                        return Err(x);
                    },
                    Ok(()) => {},
                }
                cg.push2(Instr::LocalGet(rl), Instr::LocalSet(l));
                cg.rebind(id, Attribute::Image(l, meta));
                Ok(())
            },
            Expr::Call(f, _) => {
                let results = match func_results(cg, f) {
                    Err(x) => {
                        return Err(x);
                    },
                    Ok(results) => results,
                };
                if !returns_scalar(&results) {
                    return Err(CompileError::TypeMismatch);
                }
                proof {
                    lemma_expr_frame(*e, cg@);
                }
                match e.compile(cg) {
                    Err(x) => {
                        return Err(x);
                    },
                    Ok(()) => {},
                }
                cg.rebind(id, Attribute::Image(l, None));
                cg.push(Instr::LocalSet(l));
                Ok(())
            },
            _ => Err(CompileError::TypeMismatch),
        },
        Target::Material(left) => match e {
            Expr::Variable(v) => {
                let right = match cg.symbol_table.lookup(v) {
                    None => {
                        return Err(CompileError::UndefinedReference);
                    },
                    Some(Attribute::Material(_, right, _)) => *right,
                    Some(_) => {
                        return Err(CompileError::TypeMismatch);
                    },
                };
                proof {
                    assert(old(cg)@.table.contains_key(v@));
                }
                match cg.add_alias(id, v) {
                    Err(x) => {
                        return Err(x);
                    },
                    Ok(()) => {},
                }
                cg.copy_words(left, right, MATERIAL_WORDS);
                Ok(())
            },
            Expr::Call(f, args) => {
                if !equals_text(f, "new_material") {
                    return Err(CompileError::TypeMismatch);
                }
                if args.len() != 2 {
                    return Err(CompileError::ArityMismatch);
                }
                let (w, h) = match (&*args[0], &*args[1]) {
                    (Expr::Number(w), Expr::Number(h)) => (*w, *h),
                    _ => {
                        return Err(CompileError::TypeMismatch);
                    },
                };
                let mut width: Vec<MemoryValue> = Vec::new();
                width.push(MemoryValue::Const(w));
                let mut height: Vec<MemoryValue> = Vec::new();
                height.push(MemoryValue::Const(h));
                assert(width@ =~= seq![MemoryValue::Const(w)]);
                assert(height@ =~= seq![MemoryValue::Const(h)]);
                let ghost before = cg.code@;
                let _ = cg.store_words(Some(left), &width);
                let _ = cg.store_words(Some(left + 4), &height);
                assert(cg.code@ =~= before + (store_code(left as int, seq![MemoryValue::Const(w)])
                    + store_code(left + 4, seq![MemoryValue::Const(h)])));
                Ok(())
            },
            _ => Err(CompileError::TypeMismatch),
        },
    }
}

proof fn lemma_first_index_unique(s: Seq<Seq<char>>, c: Seq<char>, i: int)
    requires
        is_first_index(s, c, i),
    ensures
        (choose|j: int| is_first_index(s, c, j)) == i,
{
    let j = choose|j: int| is_first_index(s, c, j);
    if j < i {
        assert(s[j] == c);
    }
    if i < j {
        assert(s[i] == c);
    }
}

/// Emits an assignment to channel `ch` of the material `m`.
fn compile_channel(m: &String, ch: &String, e: &Expr, cg: &mut Codegen) -> (r: Result<(), CompileError>)
    requires
        old(cg).wf(),
    ensures
        final(cg).wf(),
        outcome(channel_gen(m@, ch@, *e, old(cg)@), r, final(cg)@),
            channel_gen(m@, ch@, *e, old(cg)@) is Err ==> final(cg)@ == channel_fail(m@, ch@, *e, old(cg)@),
            final(cg).imports == old(cg).imports,
{
    let (offset, material_type) = match cg.symbol_table.lookup(m) {
        None => {
            return Err(CompileError::UndefinedReference);
        },
        Some(Attribute::Material(_, offset, t)) => (*offset, copy_string(t)),
        Some(_) => {
            return Err(CompileError::TypeMismatch);
        },
    };
    proof {
        assert(old(cg)@.table.contains_key(m@));
    }
    let index = match cg.symbol_table.library_tracker().material_info().find_channel_index(
        &material_type,
        ch,
    ) {
        Err(()) => {
            return Err(CompileError::UnknownChannel);
        },
        Ok(i) => i,
    };
    proof {
        lemma_first_index_unique(builtin_schemas()[material_type@].1, ch@, index as int);
        assert(index < 10);
    }
    let target: u32 = offset + 8 + 4 * index;
    match e {
        Expr::Variable(v) => {
            let rl = match cg.symbol_table.lookup(v) {
                None => {
                    return Err(CompileError::UndefinedReference);
                },
                Some(Attribute::Image(rl, _)) => *rl,
                Some(_) => {
                    return Err(CompileError::TypeMismatch);
                },
            };
            let mut value: Vec<MemoryValue> = Vec::new();
            value.push(MemoryValue::Local(rl));
            assert(value@ =~= seq![MemoryValue::Local(rl)]);
            let _ = cg.store_words(Some(target), &value);
            Ok(())
        },
        Expr::Call(f, _) => {
            let results = match func_results(cg, f) {
                Err(x) => {
                    return Err(x);
                },
                Ok(results) => results,
            };
            if !returns_scalar(&results) {
                return Err(CompileError::TypeMismatch);
            }
            cg.push(Instr::Const(target as i32));
            match e.compile(cg) {
                Err(x) => {
                    return Err(x);
                },
                Ok(()) => {},
            }
            cg.push(Instr::Store);
            Ok(())
        },
        _ => Err(CompileError::TypeMismatch),
    }
}

/// A failure among the first `i` arguments of `show` is the failure of them
/// all.
proof fn lemma_show_failure(args: Seq<Box<Expr>>, s: CgView, i: int)
    requires
        0 <= i <= args.len(),
        show_gen(args.subrange(0, i), s) is Err,
    ensures
        show_gen(args, s) == show_gen(args.subrange(0, i), s),
        show_fail(args, s) == show_fail(args.subrange(0, i), s),
    decreases args.len() - i,
{
    if i < args.len() {
        assert(args.subrange(0, i + 1).subrange(0, i) =~= args.subrange(0, i));
        lemma_show_failure(args, s, i + 1);
    } else {
        assert(args.subrange(0, i) =~= args);
    }
}

/// Emits `show(...)`: marks each argument that names an image for export.
fn compile_show(args: &Vec<Box<Expr>>, cg: &mut Codegen) -> (r: Result<(), CompileError>)
    requires
        old(cg).wf(),
    ensures
        final(cg).wf(),
        outcome(show_gen(args@, old(cg)@), r, final(cg)@),
            show_gen(args@, old(cg)@) is Err ==> final(cg)@ == show_fail(args@, old(cg)@),
            final(cg).imports == old(cg).imports,
{
    let ghost s0 = cg@;
    proof {
        assert(args@.subrange(0, 0) =~= Seq::<Box<Expr>>::empty());
    }
    let mut i: usize = 0;
    while i < args.len()
        invariant
            cg.wf(),
            i <= args@.len(),
            s0 == old(cg)@,
            cg.imports == old(cg).imports,
            show_gen(args@.subrange(0, i as int), s0) == Ok::<CgView, CompileError>(cg@),
        decreases args@.len() - i,
    {
        let ghost before = cg@;
        proof {
            let sub = args@.subrange(0, i + 1);
            assert(sub.subrange(0, i as int) =~= args@.subrange(0, i as int));
            assert(sub[i as int] == args@[i as int]);
        }
        match &*args[i] {
            Expr::Variable(v) => {
                let is_image = match cg.symbol_table.lookup(v) {
                    None => None,
                    Some(Attribute::Image(_, _)) => Some(true),
                    Some(_) => Some(false),
                };
                match is_image {
                    None => {
                        proof {
                            assert(show_fail(args@.subrange(0, i + 1), s0) == before);
                            lemma_show_failure(args@, s0, i + 1);
                        }
                        return Err(CompileError::UndefinedReference);
                    },
                    Some(true) => {
                        cg.symbol_table.export_image(copy_string(v));
                        assert(cg@ == (CgView { tracker: with_export(before.tracker, v@), ..before }));
                    },
                    Some(false) => {},
                }
            },
            _ => {},
        }
        i = i + 1;
    }
    proof {
        assert(args@.subrange(0, args@.len() as int) =~= args@);
    }
    Ok(())
}

/// A fresh material record's words.
fn unset_words() -> (r: Vec<MemoryValue>)
    ensures
        r@ == unset_record(),
{
    let mut r: Vec<MemoryValue> = Vec::new();
    let mut i: u32 = 0;
    while i < MATERIAL_WORDS
        invariant
            i <= MATERIAL_WORDS,
            r@.len() == i,
            forall|j: int| 0 <= j < i ==> #[trigger] r@[j] == MemoryValue::Const(i32::MAX),
        decreases MATERIAL_WORDS - i,
    {
        r.push(MemoryValue::Const(i32::MAX));
        i = i + 1;
    }
    assert(r@ =~= unset_record());
    r
}

/// Emits a declaration of `id` with type tag `tag`.
fn compile_declare(id: &String, tag: &String, init: &Option<Box<Expr>>, cg: &mut Codegen) -> (r:
    Result<(), CompileError>)
    requires
        old(cg).wf(),
    ensures
        final(cg).wf(),
        outcome(declare_gen(id@, tag@, *init, old(cg)@), r, final(cg)@),
            declare_gen(id@, tag@, *init, old(cg)@) is Err ==> final(cg)@ == declare_fail(id@, tag@, *init, old(cg)@),
            final(cg).imports == old(cg).imports,
{
    if parses_as_integer(id) {
        return Err(CompileError::LexicalNaming);
    }
    match normalize_type(tag) {
        None => Err(CompileError::UnsupportedForm),
        Some(VarKind::Number) => {
            if cg.locals == u32::MAX {
                return Err(CompileError::LimitExceeded);
            }
            let l = cg.new_local();
            cg.bind(copy_string(id), Attribute::Number(l));
            match init {
                None => Ok(()),
                Some(e) => match &**e {
                    Expr::Variable(v) => {
                        let lv = match cg.symbol_table.lookup(v) {
                            None => None,
                            Some(Attribute::Number(lv)) => Some(Ok(*lv)),
                            Some(_) => Some(Err(())),
                        };
                        match lv {
                            None => {
                                cg.unbind(id);
                                Err(CompileError::UndefinedReference)
                            },
                            Some(Err(())) => {
                                cg.unbind(id);
                                Err(CompileError::TypeMismatch)
                            },
                            Some(Ok(lv)) => {
                                match cg.add_alias(id, v) {
                                    Err(x) => {
                                        cg.unbind(id);
                                        return Err(x);
                                    },
                                    Ok(()) => {},
                                }
                                cg.push2(Instr::LocalGet(lv), Instr::LocalSet(l));
                                Ok(())
                            },
                        }
                    },
                    Expr::Number(_) | Expr::Op(_, _, _) => {
                        proof {
                            lemma_expr_frame(**e, cg@);
                        }
                        match e.compile(cg) {
                            Err(x) => {
                                cg.unbind(id);
                                return Err(x);
                            },
                            Ok(()) => {},
                        }
                        cg.push(Instr::LocalSet(l));
                        Ok(())
                    },
                    _ => {
                        cg.unbind(id);
                        Err(CompileError::TypeMismatch)
                    },
                },
            }
        },
        Some(VarKind::Image) => {
            if cg.locals == u32::MAX {
                return Err(CompileError::LimitExceeded);
            }
            let l = cg.new_local();
            match init {
                None => {
                    cg.bind(copy_string(id), Attribute::Image(l, None));
                    Ok(())
                },
                Some(e) => match &**e {
                    Expr::Variable(v) => {
                        let (rl, meta) = match cg.symbol_table.lookup(v) {
                            None => {
                                return Err(CompileError::UndefinedReference);
                            },
                            Some(Attribute::Image(rl, meta)) => (*rl, *meta),
                            Some(_) => {
                                return Err(CompileError::TypeMismatch);
                            },
                        };
                        proof {
                            assert(cg@.table.contains_key(v@));
                        }
                        match cg.add_alias(id, v) {
                            Err(x) => {
                                return Err(x);
                            },
                            Ok(()) => {},
                        }
                        cg.push2(Instr::LocalGet(rl), Instr::LocalSet(l));
                        cg.bind(copy_string(id), Attribute::Image(l, meta));
                        Ok(())
                    },
                    Expr::Call(_, _) => {
                        cg.bind(copy_string(id), Attribute::Image(l, None));
                        match compile_assign(id, e, cg) {
                            Err(x) => {
                                cg.unbind(id);
                                Err(x)
                            },
                            Ok(()) => Ok(()),
                        }
                    },
                    _ => Err(CompileError::TypeMismatch),
                },
            }
        },
        Some(VarKind::Material) => {
            if cg.memory.cursor_offset() > MEMORY_BYTES - 4 * MATERIAL_WORDS {
                return Err(CompileError::LimitExceeded);
            }
            let words = unset_words();
            let (memory_id, offset) = cg.store_words(None, &words);
            cg.bind(copy_string(id), Attribute::Material(memory_id, offset, text("PBRMetalness")));
            match init {
                None => Ok(()),
                Some(e) => match compile_assign(id, e, cg) {
                    Err(x) => {
                        cg.unbind(id);
                        Err(x)
                    },
                    Ok(()) => Ok(()),
                },
            }
        },
    }
}

/// A failure among the first `i` statements is the failure of them all.
pub proof fn lemma_stmts_failure(ss: Seq<Statement>, s: CgView, i: int)
    requires
        0 <= i <= ss.len(),
        stmts_gen(ss.subrange(0, i), s) is Err,
    ensures
        stmts_gen(ss, s) == stmts_gen(ss.subrange(0, i), s),
        stmts_fail(ss, s) == stmts_fail(ss.subrange(0, i), s),
    decreases ss.len() - i,
{
    if i < ss.len() {
        assert(ss.subrange(0, i + 1).subrange(0, i) =~= ss.subrange(0, i));
        lemma_stmts_failure(ss, s, i + 1);
    } else {
        assert(ss.subrange(0, i) =~= ss);
    }
}

impl Statement {
    /// Emits the statement's code. On failure the binding the statement
    /// introduced, if any, is removed again.
    pub fn compile(&self, cg: &mut Codegen) -> (r: Result<(), CompileError>)
        requires
            old(cg).wf(),
        ensures
            final(cg).wf(),
            outcome(stmt_gen(*self, old(cg)@), r, final(cg)@),
            stmt_gen(*self, old(cg)@) is Err ==> final(cg)@ == stmt_fail(*self, old(cg)@),
            final(cg).imports == old(cg).imports,
        decreases self,
    {
        match self {
            Statement::Declare(id, tag, init) => compile_declare(id, tag, init, cg),
            Statement::Assignment(path, e) => {
                if path.len() == 2 {
                    compile_channel(&path[0], &path[1], e, cg)
                } else if path.len() == 1 {
                    compile_assign(&path[0], e, cg)
                } else {
                    Err(CompileError::UnsupportedForm)
                }
            },
            Statement::Block(stmts) => {
                let ghost s0 = cg@;
                proof {
                    assert(stmts@.subrange(0, 0) =~= Seq::<Statement>::empty());
                }
                let mut i: usize = 0;
                while i < stmts.len()
                    invariant
                        cg.wf(),
                        i <= stmts@.len(),
                        s0 == old(cg)@,
                        cg.imports == old(cg).imports,
                        *self == Statement::Block(*stmts),
                        stmts_gen(stmts@.subrange(0, i as int), s0) == Ok::<CgView, CompileError>(
                            cg@,
                        ),
                    decreases stmts@.len() - i,
                {
                    proof {
                        let sub = stmts@.subrange(0, i + 1);
                        assert(sub.subrange(0, i as int) =~= stmts@.subrange(0, i as int));
                        assert(sub[i as int] == stmts@[i as int]);
                        assert(decreases_to!(*self => self->Block_0));
                        assert(decreases_to!(*stmts => stmts@));
                        assert(decreases_to!(stmts@ => stmts@[i as int]));
                    }
                    let ghost before = cg@;
                    match stmts[i].compile(cg) {
                        Err(x) => {
                            proof {
                                assert(stmts_fail(stmts@.subrange(0, i + 1), s0) == stmt_fail(
                                    stmts@[i as int],
                                    before,
                                ));
                                lemma_stmts_failure(stmts@, s0, i + 1);
                            }
                            return Err(x);
                        },
                        Ok(()) => {},
                    }
                    i = i + 1;
                }
                proof {
                    assert(stmts@.subrange(0, stmts@.len() as int) =~= stmts@);
                }
                Ok(())
            },
            Statement::Call(name, args) => {
                if equals_text(name, "logger") {
                    Ok(())
                } else if equals_text(name, "show") {
                    compile_show(args, cg)
                } else {
                    Err(CompileError::UnsupportedForm)
                }
            },
        }
    }
}

} // verus!
