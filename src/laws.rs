use vstd::prelude::*;

use crate::ast::{Expr, Statement};
use crate::bindings::order_insert;
use crate::codegen::{
    attr_fits, kind_of_tag, parses_as_i32, state_ok, VarKind,
    assign_gen, channel_offset, declare_gen, record_bytes, show_gen, stmt_gen, stmts_gen, CgView,
};
use crate::deps::{depends, reaches, step};
use crate::instr::{CompileError, Instr};
use crate::memory::MEMORY_BYTES;
use crate::symbol::{builtin_schemas, is_first_index, with_export, AttrView, TrackerView};

verus! {

/// `st` is the assignment `x = y;` between plain variables.
pub open spec fn is_alias_assignment(st: Statement, x: Seq<char>, y: Seq<char>) -> bool {
    match st {
        Statement::Assignment(path, e) => path@.len() == 1 && path@[0]@ == x && match *e {
            Expr::Variable(v) => v@ == y,
            _ => false,
        },
        _ => false,
    }
}

/// Marking the same image for export twice leaves one entry, as marking it
/// once does.
pub proof fn law_export_idempotent(v: TrackerView, name: Seq<char>)
    ensures
        with_export(with_export(v, name), name) == with_export(v, name),
{
    if v.images.contains_key(name) {
        let id = v.images[name].id;
        let once = order_insert(v.exports, name, id);
        if exists|i: int| 0 <= i < v.exports.len() && v.exports[i].0 == name {
            let i = choose|i: int| 0 <= i < v.exports.len() && v.exports[i].0 == name;
            assert(once[i].0 == name);
        } else {
            assert(once[once.len() - 1].0 == name);
        }
        assert(order_insert(once, name, id) =~= once);
    }
}

/// `st` is `show(v);` for the one variable `v`.
pub open spec fn is_show_of(st: Statement, v: Seq<char>) -> bool {
    match st {
        Statement::Call(name, args) => name@ == "show"@ && args@.len() == 1 && match *args@[0] {
            Expr::Variable(x) => x@ == v,
            _ => false,
        },
        _ => false,
    }
}

/// Showing the same variable twice has the effect of showing it once: the
/// export list gets one entry for it.
pub proof fn law_show_twice(st: Statement, v: Seq<char>, s: CgView)
    requires
        is_show_of(st, v),
    ensures
        stmts_gen(seq![st, st], s) == stmt_gen(st, s),
{
    let args = st->Call_1@;
    assert(args.subrange(0, 0) =~= Seq::<Box<Expr>>::empty());
    assert(show_gen(Seq::<Box<Expr>>::empty(), s) == Ok::<CgView, CompileError>(s));
    let ss = seq![st, st];
    assert(ss.subrange(0, 1) =~= seq![st]);
    assert(seq![st].subrange(0, 0) =~= Seq::<Statement>::empty());
    assert(stmts_gen(Seq::<Statement>::empty(), s) == Ok::<CgView, CompileError>(s));
    assert(stmts_gen(seq![st], s) == stmt_gen(st, s));
    if let Ok(t) = stmt_gen(st, s) {
        assert(show_gen(Seq::<Box<Expr>>::empty(), t) == Ok::<CgView, CompileError>(t));
        law_export_idempotent(s.tracker, v);
        assert(stmt_gen(st, t) == Ok::<CgView, CompileError>(t));
    }
}

/// Assigning a number variable from another one that already depends on it
/// fails with a dependency cycle.
pub proof fn law_alias_cycle_rejected(x: Seq<char>, st: Statement, y: Seq<char>, s: CgView)
    requires
        is_alias_assignment(st, x, y),
        s.table.contains_key(x),
        s.table.contains_key(y),
        s.table[x] is Number,
        s.table[y] is Number,
        depends(s.edges, y, x),
    ensures
        stmt_gen(st, s) == Err::<CgView, CompileError>(CompileError::DependencyCycle),
{
}

/// The alias chain `a = b; c = a; b = c;` among three number variables
/// always fails with a dependency cycle: the third assignment would make
/// `b` depend on itself, if an earlier one has not already closed a cycle.
pub proof fn law_alias_chain_rejected(
    a: Seq<char>,
    b: Seq<char>,
    c: Seq<char>,
    s1: Statement,
    s2: Statement,
    s3: Statement,
    s: CgView,
)
    requires
        is_alias_assignment(s1, a, b),
        is_alias_assignment(s2, c, a),
        is_alias_assignment(s3, b, c),
        s.table.contains_key(a) && s.table[a] is Number,
        s.table.contains_key(b) && s.table[b] is Number,
        s.table.contains_key(c) && s.table[c] is Number,
    ensures
        stmts_gen(seq![s1, s2, s3], s) == Err::<CgView, CompileError>(CompileError::DependencyCycle),
{
    let ss = seq![s1, s2, s3];
    assert(ss.subrange(0, 2) =~= seq![s1, s2]);
    assert(seq![s1, s2].subrange(0, 1) =~= seq![s1]);
    assert(seq![s1].subrange(0, 0) =~= Seq::<Statement>::empty());
    assert(stmts_gen(Seq::<Statement>::empty(), s) == Ok::<CgView, CompileError>(s));
    assert(stmts_gen(seq![s1], s) == stmt_gen(s1, s));
    assert(stmts_gen(seq![s1, s2], s) == match stmt_gen(s1, s) {
        Err(x) => Err(x),
        Ok(t1) => stmt_gen(s2, t1),
    });
    assert(stmts_gen(ss, s) == match stmts_gen(seq![s1, s2], s) {
        Err(x) => Err(x),
        Ok(t2) => stmt_gen(s3, t2),
    });
    if let Ok(t1) = stmt_gen(s1, s) {
        assert(t1.edges == s.edges.push((a, b)));
        assert(t1.table == s.table);
        if let Ok(t2) = stmt_gen(s2, t1) {
            assert(t2.edges == t1.edges.push((c, a)));
            let g = t2.edges;
            assert(g[g.len() - 1] == (c, a));
            assert(g[g.len() - 2] == (a, b));
            assert(step(g, c, a));
            assert(step(g, a, b));
            assert(reaches(g, c, c, 0));
            assert(reaches(g, c, a, 1));
            assert(reaches(g, c, b, 2));
            assert(depends(g, c, b));
        }
    }
}

proof fn reveal_type_tags()
    ensures
        kind_of_tag("Number"@) == Some(VarKind::Number),
        kind_of_tag("Material"@) == Some(VarKind::Material),
{
    reveal_strlit("N");
    reveal_strlit("Number");
    reveal_strlit("n");
    reveal_strlit("number");
    reveal_strlit("I");
    reveal_strlit("Image");
    reveal_strlit("i");
    reveal_strlit("image");
    reveal_strlit("M");
    reveal_strlit("Material");
    reveal_strlit("m");
    reveal_strlit("material");
    assert("N"@.len() == 1);
    assert("Number"@.len() == 6);
    assert("n"@.len() == 1);
    assert("number"@.len() == 6);
    assert("I"@.len() == 1);
    assert("Image"@.len() == 5);
    assert("i"@.len() == 1);
    assert("image"@.len() == 5);
    assert("M"@.len() == 1);
    assert("Material"@.len() == 8);
}

/// A material declared at cursor `c` occupies bytes `c` to `c + 128`, and
/// the cursor moves past it: consecutive records never overlap.
pub proof fn law_material_layout(id: Seq<char>, s: CgView)
    requires
        !parses_as_i32(id),
        s.cursor + record_bytes() <= MEMORY_BYTES,
    ensures
        declare_gen(id, "Material"@, None, s) is Ok,
        declare_gen(id, "Material"@, None, s)->Ok_0.table[id] == AttrView::Material(
            s.memory_id,
            s.cursor as u32,
            "PBRMetalness"@,
        ),
        declare_gen(id, "Material"@, None, s)->Ok_0.cursor == s.cursor + record_bytes(),
{
    reveal_type_tags();
}

/// Two material declarations in a row take the blocks at the cursor and
/// 128 bytes past it.
pub proof fn law_two_materials(a: Seq<char>, b: Seq<char>, s: CgView)
    requires
        !parses_as_i32(a),
        !parses_as_i32(b),
        a != b,
        s.cursor + 2 * record_bytes() <= MEMORY_BYTES,
    ensures
        declare_gen(a, "Material"@, None, s) is Ok,
        declare_gen(b, "Material"@, None, declare_gen(a, "Material"@, None, s)->Ok_0) is Ok,
        declare_gen(b, "Material"@, None, declare_gen(a, "Material"@, None, s)->Ok_0)->Ok_0.table[a]
            == AttrView::Material(s.memory_id, s.cursor as u32, "PBRMetalness"@),
        declare_gen(b, "Material"@, None, declare_gen(a, "Material"@, None, s)->Ok_0)->Ok_0.table[b]
            == AttrView::Material(s.memory_id, (s.cursor + record_bytes()) as u32, "PBRMetalness"@),
{
    law_material_layout(a, s);
    let t = declare_gen(a, "Material"@, None, s)->Ok_0;
    law_material_layout(b, t);
}

/// Declaring a number from a number variable copies the variable's slot
/// into a fresh one: `var y:Number = x;` appends `local.get x; local.set y`.
pub proof fn law_number_copy(y: Seq<char>, x: Seq<char>, init: Option<Box<Expr>>, s: CgView)
    requires
        state_ok(s),
        init matches Some(e) && *e matches Expr::Variable(v) && v@ == x,
        !parses_as_i32(y),
        x != y,
        s.table.contains_key(x),
        s.table[x] is Number,
        s.locals < u32::MAX,
        !depends(s.edges, x, y),
    ensures
        declare_gen(y, "Number"@, init, s) is Ok,
        declare_gen(y, "Number"@, init, s)->Ok_0.table[y] == AttrView::Number(s.locals),
        s.table[x]->Number_0 != s.locals,
        declare_gen(y, "Number"@, init, s)->Ok_0.code == s.code + seq![
            Instr::LocalGet(s.table[x]->Number_0),
            Instr::LocalSet(s.locals),
        ],
{
    reveal_type_tags();
    assert(attr_fits(s.table[x], s));
}

/// The first channel of the default material type, `diffuse`, lies two
/// header words past the record's start.
pub proof fn law_diffuse_offset(offset: u32)
    ensures
        channel_offset(offset, "PBRMetalness"@, "diffuse"@) == offset + 8,
{
    reveal_strlit("PBRMetalness");
    reveal_strlit("PBRSpecular");
    reveal_strlit("UnityStandardSpecular");
    reveal_strlit("diffuse");
    assert("PBRMetalness"@.len() == 12);
    assert("PBRSpecular"@.len() == 11);
    assert("UnityStandardSpecular"@.len() == 21);
    assert("PBRMetalness"@ != "PBRSpecular"@);
    assert("PBRMetalness"@ != "UnityStandardSpecular"@);
    let chs = builtin_schemas()["PBRMetalness"@].1;
    assert(chs[0] == "diffuse"@);
    assert(is_first_index(chs, "diffuse"@, 0));
    let j = choose|j: int| is_first_index(chs, "diffuse"@, j);
    if j > 0 {
        assert(chs[0] == "diffuse"@);
    }
}

} // verus!
