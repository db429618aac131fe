use vstd::prelude::*;

use crate::ast::{Expr, Statement};

verus! {

/// `e` is nested at most `d` levels deep.
pub open spec fn expr_within(e: Expr, d: nat) -> bool
    decreases e, 1int,
{
    d > 0 && match e {
        Expr::Op(l, _, r) => expr_within(*l, (d - 1) as nat) && expr_within(*r, (d - 1) as nat),
        Expr::Call(_, args) => args_within(args@, (d - 1) as nat),
        _ => true,
    }
}

/// Every one of `args` is nested at most `d` levels deep.
pub open spec fn args_within(args: Seq<Box<Expr>>, d: nat) -> bool
    decreases args, 0int,
{
    args.len() == 0 || (args_within(args.subrange(0, args.len() - 1), d) && expr_within(
        *args[args.len() - 1],
        d,
    ))
}

/// `st` is nested at most `d` levels deep, its expressions included.
pub open spec fn stmt_within(st: Statement, d: nat) -> bool
    decreases st, 1int,
{
    d > 0 && match st {
        Statement::Declare(_, _, Some(e)) => expr_within(*e, (d - 1) as nat),
        Statement::Declare(_, _, None) => true,
        Statement::Assignment(_, e) => expr_within(*e, (d - 1) as nat),
        Statement::Block(ss) => stmts_within(ss@, (d - 1) as nat),
        Statement::Call(_, args) => args_within(args@, (d - 1) as nat),
    }
}

/// Every one of `ss` is nested at most `d` levels deep.
pub open spec fn stmts_within(ss: Seq<Statement>, d: nat) -> bool
    decreases ss, 0int,
{
    ss.len() == 0 || (stmts_within(ss.subrange(0, ss.len() - 1), d) && stmt_within(
        ss[ss.len() - 1],
        d,
    ))
}

proof fn lemma_args_prefix(args: Seq<Box<Expr>>, d: nat, i: int)
    requires
        0 <= i <= args.len(),
        !args_within(args.subrange(0, i), d),
    ensures
        !args_within(args, d),
    decreases args.len() - i,
{
    if i < args.len() {
        assert(args.subrange(0, i + 1).subrange(0, i) =~= args.subrange(0, i));
        lemma_args_prefix(args, d, i + 1);
    } else {
        assert(args.subrange(0, i) =~= args);
    }
}

proof fn lemma_stmts_prefix(ss: Seq<Statement>, d: nat, i: int)
    requires
        0 <= i <= ss.len(),
        !stmts_within(ss.subrange(0, i), d),
    ensures
        !stmts_within(ss, d),
    decreases ss.len() - i,
{
    if i < ss.len() {
        assert(ss.subrange(0, i + 1).subrange(0, i) =~= ss.subrange(0, i));
        lemma_stmts_prefix(ss, d, i + 1);
    } else {
        assert(ss.subrange(0, i) =~= ss);
    }
}

/// Whether `e` is nested at most `d` levels deep. Descends at most `d`
/// levels itself.
pub fn expr_within_depth(e: &Expr, d: usize) -> (r: bool)
    ensures
        r == expr_within(*e, d as nat),
    decreases e,
{
    if d == 0 {
        return false;
    }
    match e {
        Expr::Op(l, _, r) => expr_within_depth(l, d - 1) && expr_within_depth(r, d - 1),
        Expr::Call(_, args) => {
            let mut i: usize = 0;
            proof {
                assert(args@.subrange(0, 0) =~= Seq::<Box<Expr>>::empty());
            }
            while i < args.len()
                invariant
                    d > 0,
                    i <= args@.len(),
                    *e == Expr::Call(e->Call_0, *args),
                    args_within(args@.subrange(0, i as int), (d - 1) as nat),
                decreases args@.len() - i,
            {
                proof {
                    let sub = args@.subrange(0, i + 1);
                    assert(sub.subrange(0, i as int) =~= args@.subrange(0, i as int));
                    assert(sub[i as int] == args@[i as int]);
                    assert(decreases_to!(*e => e->Call_1));
                    assert(decreases_to!(*args => args@));
                    assert(decreases_to!(args@ => args@[i as int]));
                }
                if !expr_within_depth(&args[i], d - 1) {
                    proof {
                        lemma_args_prefix(args@, (d - 1) as nat, i + 1);
                    }
                    return false;
                }
                i = i + 1;
            }
            proof {
                assert(args@.subrange(0, args@.len() as int) =~= args@);
            }
            true
        },
        _ => true,
    }
}

/// Whether `st` is nested at most `d` levels deep. Descends at most `d`
/// levels itself.
pub fn statement_within_depth(st: &Statement, d: usize) -> (r: bool)
    ensures
        r == stmt_within(*st, d as nat),
    decreases st,
{
    if d == 0 {
        return false;
    }
    match st {
        Statement::Declare(_, _, Some(e)) => expr_within_depth(e, d - 1),
        Statement::Declare(_, _, None) => true,
        Statement::Assignment(_, e) => expr_within_depth(e, d - 1),
        Statement::Block(ss) => {
            let mut i: usize = 0;
            proof {
                assert(ss@.subrange(0, 0) =~= Seq::<Statement>::empty());
            }
            while i < ss.len()
                invariant
                    d > 0,
                    i <= ss@.len(),
                    *st == Statement::Block(*ss),
                    stmts_within(ss@.subrange(0, i as int), (d - 1) as nat),
                decreases ss@.len() - i,
            {
                proof {
                    let sub = ss@.subrange(0, i + 1);
                    assert(sub.subrange(0, i as int) =~= ss@.subrange(0, i as int));
                    assert(sub[i as int] == ss@[i as int]);
                    assert(decreases_to!(*st => st->Block_0));
                    assert(decreases_to!(*ss => ss@));
                    assert(decreases_to!(ss@ => ss@[i as int]));
                }
                if !statement_within_depth(&ss[i], d - 1) {
                    proof {
                        lemma_stmts_prefix(ss@, (d - 1) as nat, i + 1);
                    }
                    return false;
                }
                i = i + 1;
            }
            proof {
                assert(ss@.subrange(0, ss@.len() as int) =~= ss@);
            }
            true
        },
        Statement::Call(_, args) => {
            let mut i: usize = 0;
            proof {
                assert(args@.subrange(0, 0) =~= Seq::<Box<Expr>>::empty());
            }
            while i < args.len()
                invariant
                    d > 0,
                    i <= args@.len(),
                    *st == Statement::Call(st->Call_0, *args),
                    args_within(args@.subrange(0, i as int), (d - 1) as nat),
                decreases args@.len() - i,
            {
                proof {
                    let sub = args@.subrange(0, i + 1);
                    assert(sub.subrange(0, i as int) =~= args@.subrange(0, i as int));
                    assert(sub[i as int] == args@[i as int]);
                }
                if !expr_within_depth(&args[i], d - 1) {
                    proof {
                        lemma_args_prefix(args@, (d - 1) as nat, i + 1);
                    }
                    return false;
                }
                i = i + 1;
            }
            proof {
                assert(args@.subrange(0, args@.len() as int) =~= args@);
            }
            true
        },
    }
}

/// Whether every statement of `ss` is nested at most `d` levels deep.
pub fn statements_within_depth(ss: &Vec<Statement>, d: usize) -> (r: bool)
    ensures
        r == stmts_within(ss@, d as nat),
{
    let mut i: usize = 0;
    proof {
        assert(ss@.subrange(0, 0) =~= Seq::<Statement>::empty());
    }
    while i < ss.len()
        invariant
            i <= ss@.len(),
            stmts_within(ss@.subrange(0, i as int), d as nat),
        decreases ss@.len() - i,
    {
        proof {
            let sub = ss@.subrange(0, i + 1);
            assert(sub.subrange(0, i as int) =~= ss@.subrange(0, i as int));
            assert(sub[i as int] == ss@[i as int]);
        }
        if !statement_within_depth(&ss[i], d) {
            proof {
                lemma_stmts_prefix(ss@, d as nat, i + 1);
            }
            return false;
        }
        i = i + 1;
    }
    proof {
        assert(ss@.subrange(0, ss@.len() as int) =~= ss@);
    }
    true
}

} // verus!
