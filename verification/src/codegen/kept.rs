//! Compiling a statement never touches the code before it, and every jump that
//! it leaves open lies in its own code.

use crate::ast::{CatchClause, Expr, Stmt, StmtKind, SwitchCase, Type, TypeView};
use crate::bytecode::opcode::Opcode;
use crate::codegen::emitter::{new_loop, real_loop, CxView, State};
use crate::codegen::expr_ty::{as_type, box_name, ExprTyView};
use crate::codegen::frame::{
    add_break_keeps, add_continue_keeps, all_from, group_frame, keeps, loop_keeps, plain,
};
use crate::codegen::lowered::{
    aimed_cases, block_code, bodies_code, bool_code, catches_code, declared_type, dispatch_code,
    dropped_code, element_code, expr_code, for_code, foreach_code, guarded, if_code, inner_fin,
    iterated, loop_end, loop_test_code, replay_code, size_code, steps_code, stmt_code, stmts_code,
    switch_code, try_code, var_decl_code, var_init_code, while_code,
};
use crate::codegen::ops::{class_name, coerced, Done};
use crate::codegen::straight::{
    bool_plain, done_plain, dropped_plain, expr_plain, super_call_plain, this_call_plain,
};
use crate::codegen::vars::{narrowed, narrowing, widened_back};
use crate::probe::{after_all, cast, item_type};
use crate::size::{
    block_size, case_smaller, cases_size, catch_smaller, catches_size, expr_size, exprs_size,
    fin_push, fin_size, frame_smaller, item_smaller, opt_block_size, opt_size, stack_prefix,
    stmt_no_larger, stmt_size,
};
use vstd::prelude::*;

verus! {

pub open spec fn done_keeps(s: State, r: Done) -> bool {
    r matches Ok(t) ==> keeps(s, t)
}

/// A jump takes three bytes.
pub proof fn branch_length(s: State, op: Opcode, delta: int)
    ensures
        s.branch(op, delta).pc() == s.pc() + 3,
{
    reveal(State::bytes);
    reveal(State::track);
}

/// A block keeps the code before it.
pub proof fn block_keeps(c: CxView, s: State, block: Seq<Stmt>, fin: Seq<Seq<Stmt>>)
    ensures
        done_keeps(s, block_code(c, s, block, fin)),
    decreases c.level, block_size(block) + fin_size(fin), 2nat, 0nat,
{
    broadcast use group_frame;

    stmts_keeps(c, s.push_scope(), block, fin, 0);
}

pub proof fn stmts_keeps(c: CxView, s: State, block: Seq<Stmt>, fin: Seq<Seq<Stmt>>, i: int)
    ensures
        done_keeps(s, stmts_code(c, s, block, fin, i)),
    decreases c.level, block_size(block) + fin_size(fin), 1nat, (block.len() - i) as nat,
{
    broadcast use group_frame;

    assert(plain(s, s));
    if 0 <= i < block.len() {
        stmt_no_larger(block, i);
        stmt_keeps(c, s, block[i], fin);
        if let Ok(s1) = stmt_code(c, s, block[i], fin) {
            stmts_keeps(c.after(block[i]), s1, block, fin, i + 1);
        }
    }
}

pub proof fn replay_keeps(c: CxView, s: State, fin: Seq<Seq<Stmt>>, from: int, k: int)
    ensures
        done_keeps(s, replay_code(c, s, fin, from, k)),
    decreases c.level, fin_size(fin.take(k)), 2nat, 0nat,
{
    broadcast use group_frame;

    assert(plain(s, s));
    if 0 < k && from < k && k <= fin.len() {
        frame_smaller(fin, k - 1);
        stmts_keeps(c.at_try(k - 1), s, fin[k - 1], fin.take(k - 1), 0);
        if let Ok(s1) = stmts_code(c.at_try(k - 1), s, fin[k - 1], fin.take(k - 1), 0) {
            replay_keeps(c, s1, fin, from, k - 1);
        }
    }
}

/// A statement keeps the code before it.
pub proof fn stmt_keeps(c: CxView, s: State, stmt: Stmt, fin: Seq<Seq<Stmt>>)
    ensures
        done_keeps(s, stmt_code(c, s, stmt, fin)),
    decreases c.level, stmt_size(stmt) + fin_size(fin), 0nat, 0nat,
{
    let s0 = s.line(stmt.line);
    stack_prefix(fin, fin.len() as int);
    let r = stmt_code(c, s, stmt, fin);
    match stmt.kind {
        StmtKind::Return(value) => {
            return_keeps(c, s0, value, fin);
        },
        StmtKind::Expr(e) => {
            dropped_plain(c, s0, e);
            plain_done(s0, r);
        },
        StmtKind::VarDecl { ty, name, init, .. } => {
            if let Some(e) = init {
                var_init_keeps(c, s0, ty, name@, e);
            } else {
                var_decl_keeps(c, s0, ty, name@);
            }
            plain_done(s0, r);
        },
        StmtKind::ThisCall(args) => {
            this_call_plain(c, s0, args@);
            plain_done(s0, r);
        },
        StmtKind::SuperCall(args) => {
            super_call_plain(c, s0, args@);
            plain_done(s0, r);
        },
        StmtKind::Throw(e) => {
            throw_keeps(c, s0, e);
        },
        StmtKind::Try { body, catches, finally } => {
            try_keeps(c, s0, body@, catches@, finally, fin);
        },
        StmtKind::If { cond, then_branch, else_branch } => {
            if_keeps(c, s0, cond, then_branch@, else_branch, fin);
        },
        StmtKind::While { cond, body } => {
            while_keeps(c, s0, cond, body@, fin);
        },
        StmtKind::For { init, cond, step, body } => {
            for_keeps(c, s0, init@, cond, step@, body@, fin);
        },
        StmtKind::ForEach { ty, var, iterable, body } => {
            foreach_keeps(c, s0, ty, var@, iterable, body@, fin);
        },
        StmtKind::Break => {
            if s0.loops.len() > 0 {
                break_keeps(c, s0, fin);
            }
        },
        StmtKind::Continue => {
            continue_keeps(c, s0, fin);
        },
        StmtKind::Block(block) => {
            block_keeps(c, s0, block@, fin);
        },
        StmtKind::Switch { subject, cases } => {
            switch_keeps(c, s0, subject, cases@, fin);
        },
    }
    after_line(s, stmt.line, r);
}

proof fn plain_done(s: State, r: Done)
    requires
        done_plain(s, r),
    ensures
        done_keeps(s, r),
{
    broadcast use group_frame;

}

proof fn after_line(s: State, line: u32, r: Done)
    requires
        done_keeps(s.line(line), r),
    ensures
        done_keeps(s, r),
{
    broadcast use group_frame;

}

proof fn throw_keeps(c: CxView, s: State, e: Expr)
    ensures
        expr_code(c, s, e) matches Ok((s1, _)) ==> keeps(s, s1.op(Opcode::Throw, -1)),
{
    broadcast use group_frame;

    expr_plain(c, s, e);
}

proof fn return_keeps(c: CxView, s: State, value: Option<Expr>, fin: Seq<Seq<Stmt>>)
    ensures
        match value {
            Some(e) => expr_code(c, s, e) matches Ok((s1, ty)) ==> (replay_code(
                c,
                s1.infer_return(ty),
                fin,
                0,
                fin.len() as int,
            ) matches Ok(s2) ==> keeps(s, s2.exit_op(Opcode::ReturnValue))),
            None => replay_code(c, s, fin, 0, fin.len() as int) matches Ok(s1) ==> keeps(
                s,
                s1.exit_op(Opcode::Return),
            ),
        },
    decreases c.level, opt_size(value) + fin_size(fin.take(fin.len() as int)), 3nat, 0nat,
{
    broadcast use group_frame;

    match value {
        Some(e) => {
            expr_plain(c, s, e);
            if let Ok((s1, ty)) = expr_code(c, s, e) {
                assert(plain(s, s1.infer_return(ty)));
                replay_keeps(c, s1.infer_return(ty), fin, 0, fin.len() as int);
            }
        },
        None => {
            replay_keeps(c, s, fin, 0, fin.len() as int);
        },
    }
}

proof fn break_keeps(c: CxView, s: State, fin: Seq<Seq<Stmt>>)
    requires
        s.loops.len() > 0,
    ensures
        replay_code(c, s, fin, s.loops.last().finally_depth, fin.len() as int) matches Ok(s1) ==> {
            let s2 = s1.branch(Opcode::Goto, 0);
            keeps(s, s2.add_break(s2.loops.len() - 1, s1.pc()))
        },
    decreases c.level, fin_size(fin.take(fin.len() as int)), 3nat, 0nat,
{
    broadcast use group_frame;

    replay_keeps(c, s, fin, s.loops.last().finally_depth, fin.len() as int);
    if let Ok(s1) = replay_code(c, s, fin, s.loops.last().finally_depth, fin.len() as int) {
        branch_length(s1, Opcode::Goto, 0);
        let s2 = s1.branch(Opcode::Goto, 0);
        assert(plain(s1, s2));
        add_break_keeps(s, s2, s2.loops.len() - 1, s1.pc());
    }
}

proof fn continue_keeps(c: CxView, s: State, fin: Seq<Seq<Stmt>>)
    ensures
        real_loop(s.loops, s.loops.len() as int) matches Some(k) ==> (replay_code(
            c,
            s,
            fin,
            s.loops[k].finally_depth,
            fin.len() as int,
        ) matches Ok(s1) ==> {
            let s2 = s1.branch(Opcode::Goto, 0);
            keeps(
                s,
                match real_loop(s2.loops, s2.loops.len() as int) {
                    Some(j) => s2.add_continue(j, s1.pc()),
                    None => s2,
                },
            )
        }),
    decreases c.level, fin_size(fin.take(fin.len() as int)), 3nat, 0nat,
{
    broadcast use group_frame;

    if let Some(k) = real_loop(s.loops, s.loops.len() as int) {
        replay_keeps(c, s, fin, s.loops[k].finally_depth, fin.len() as int);
        if let Ok(s1) = replay_code(c, s, fin, s.loops[k].finally_depth, fin.len() as int) {
            branch_length(s1, Opcode::Goto, 0);
            let s2 = s1.branch(Opcode::Goto, 0);
            assert(plain(s1, s2));
            if let Some(j) = real_loop(s2.loops, s2.loops.len() as int) {
                add_continue_keeps(s, s2, j, s1.pc());
            }
        }
    }
}

proof fn var_init_keeps(c: CxView, s: State, ty: Option<Type>, name: Seq<char>, init: Expr)
    ensures
        done_plain(s, var_init_code(c, s, ty, name, init)),
{
    broadcast use group_frame;

    if c.boxed_captures.contains(name) {
        if let Some(t) = ty {
            let declared = declared_type(c, t);
            let s1 = s.new_of(box_name(as_type(declared))).op(Opcode::Dup, 1);
            assert(plain(s, s1));
            expr_plain(c, s1, init);
            if let Ok((s2, init_ty)) = expr_code(c, s1, init) {
                assert(done_plain(s2, coerced(s2, init_ty, declared, name)));
                if let Ok(s3) = coerced(s2, init_ty, declared, name) {
                    let (s4, field) = s3.box_value(declared);
                    let s5 = s4.op_u16(Opcode::SetField, field, -2);
                    assert(plain(s3, s4));
                    assert(plain(s4, s5));
                    assert(plain(s5, s5.declare_ref(name, declared).store(s5.next_local)));
                }
            }
        }
    } else {
        expr_plain(c, s, init);
    }
}

proof fn var_decl_keeps(c: CxView, s: State, ty: Option<Type>, name: Seq<char>)
    ensures
        done_plain(s, var_decl_code(c, s, ty, name)),
{
    broadcast use group_frame;

}

proof fn if_keeps(
    c: CxView,
    s: State,
    cond: Expr,
    then_branch: Seq<Stmt>,
    else_branch: Option<Vec<Stmt>>,
    fin: Seq<Seq<Stmt>>,
)
    ensures
        done_keeps(s, if_code(c, s, cond, then_branch, else_branch, fin)),
    decreases
        c.level,
        expr_size(cond) + block_size(then_branch) + opt_block_size(else_branch) + fin_size(fin),
        3nat,
        0nat,
{
    broadcast use group_frame;

    bool_plain(c, s, cond);
    if let Ok(s1) = bool_code(c, s, cond) {
        let s2 = s1.branch(Opcode::IfFalse, -1);
        assert(plain(s1, s2));
        let narrow = narrowing(c, s2, cond);
        let inside = c.with_typings(cast(c.site(), c.typings, cond, then_branch));
        assert(plain(s2, narrowed(s2, narrow)));
        block_keeps(inside, narrowed(s2, narrow), then_branch, fin);
        if let Ok(s3) = block_code(inside, narrowed(s2, narrow), then_branch, fin) {
            let s4 = widened_back(s3, narrow);
            assert(plain(s3, s4));
            assert(keeps(s1, s4));
            if let Some(block) = else_branch {
                let s5 = s4.branch(Opcode::Goto, 0).aim_here(s1.pc());
                assert(keeps(s1, s4.branch(Opcode::Goto, 0)));
                assert(keeps(s1, s5));
                block_keeps(c, s5, block@, fin);
                if let Ok(s6) = block_code(c, s5, block@, fin) {
                    assert(keeps(s1, s6));
                    assert(s1.pc() <= s4.pc());
                }
            }
        }
    }
}

/// The end of a loop whose test and body lie in the code since `a`.
pub proof fn loop_end_keeps(a: State, s: State, top: int, exit: Option<int>, breaks: Seq<int>)
    requires
        keeps(a, s),
        exit matches Some(pc) ==> a.pc() <= pc,
        all_from(breaks, a.pc()),
    ensures
        keeps(a, loop_end(s, top, exit, breaks)),
{
    broadcast use group_frame;

    let s1 = s.goto_to(top);
    assert(plain(s, s1));
    assert(keeps(a, s1));
    let s2 = match exit {
        Some(pc) => s1.aim_here(pc),
        None => s1,
    };
    assert(keeps(a, s2));
}

proof fn while_keeps(c: CxView, s: State, cond: Expr, body: Seq<Stmt>, fin: Seq<Seq<Stmt>>)
    ensures
        done_keeps(s, while_code(c, s, cond, body, fin)),
    decreases c.level, expr_size(cond) + block_size(body) + fin_size(fin), 3nat, 0nat,
{
    broadcast use group_frame;

    bool_plain(c, s, cond);
    if let Ok(s1) = bool_code(c, s, cond) {
        let s1b = s1.branch(Opcode::IfFalse, -1);
        let l0 = new_loop(fin.len() as int, false);
        assert(plain(s1, s1b));
        block_keeps(c, s1b.enter_loop(l0), body, fin);
        if let Ok(s3) = block_code(c, s1b.enter_loop(l0), body, fin) {
            loop_keeps(s1b, l0, s3);
            let l = s3.this_loop();
            assert(keeps(s, s3.leave_loop()));
            let s4 = s3.leave_loop().aim_all(l.continue_patches, s.pc());
            assert(keeps(s, s4));
            loop_end_keeps(s, s4, s.pc(), Some(s1.pc()), l.break_patches);
        }
    }
}

pub proof fn steps_keeps(c: CxView, s: State, steps: Seq<Expr>, i: int)
    ensures
        done_plain(s, steps_code(c, s, steps, i)),
    decreases c.level, exprs_size(steps), 2nat, (steps.len() - i) as nat,
{
    broadcast use group_frame;

    if 0 <= i < steps.len() {
        item_smaller(steps, i);
        dropped_plain(c, s, steps[i]);
        if let Ok(s1) = dropped_code(c, s, steps[i]) {
            steps_keeps(c, s1, steps, i + 1);
        }
    }
}

proof fn loop_test_keeps(c: CxView, s: State, cond: Option<Expr>)
    ensures
        loop_test_code(c, s, cond) matches Ok((t, exit)) ==> plain(s, t) && (exit matches Some(pc)
            ==> s.pc() <= pc),
{
    broadcast use group_frame;

    if let Some(e) = cond {
        bool_plain(c, s, e);
    }
}

proof fn for_keeps(
    c: CxView,
    s: State,
    init: Seq<Stmt>,
    cond: Option<Expr>,
    step: Seq<Expr>,
    body: Seq<Stmt>,
    fin: Seq<Seq<Stmt>>,
)
    ensures
        done_keeps(s, for_code(c, s, init, cond, step, body, fin)),
    decreases
        c.level,
        block_size(init) + opt_size(cond) + exprs_size(step) + block_size(body) + fin_size(fin),
        3nat,
        0nat,
{
    broadcast use group_frame;

    stmts_keeps(c, s.push_scope(), init, fin, 0);
    if let Ok(s1) = stmts_code(c, s.push_scope(), init, fin, 0) {
        assert(keeps(s, s1));
        let c1 = c.with_typings(after_all(c.site(), c.typings, init, init.len() as int));
        loop_test_keeps(c1, s1, cond);
        if let Ok((s2, exit)) = loop_test_code(c1, s1, cond) {
            let l0 = new_loop(fin.len() as int, false);
            block_keeps(c1, s2.enter_loop(l0), body, fin);
            if let Ok(s4) = block_code(c1, s2.enter_loop(l0), body, fin) {
                loop_keeps(s2, l0, s4);
                let l = s4.this_loop();
                let s5 = s4.leave_loop().aim_all(l.continue_patches, s4.pc());
                assert(keeps(s2, s5));
                steps_keeps(c1, s5, step, 0);
                if let Ok(s6) = steps_code(c1, s5, step, 0) {
                    assert(keeps(s1, s6));
                    loop_end_keeps(s1, s6, s1.pc(), exit, l.break_patches);
                    let s7 = loop_end(s6, s1.pc(), exit, l.break_patches);
                    assert(plain(s7, s7.pop_scope()));
                    assert(keeps(s, s7));
                }
            }
        }
    }
}

/// The head of a loop over a collection.
pub proof fn foreach_head_keeps(
    c: CxView,
    s: State,
    ty: Option<Type>,
    var: Seq<char>,
    iterable_ty: ExprTyView,
)
    ensures
        iterated(c, s, iterable_ty) matches Ok((s2, coll_ty, list, elem_ty)) ==> {
            let coll = s2.next_local;
            let s3 = s2.declare_scratch(coll_ty).store(coll);
            let index = s3.next_local;
            let s4 = s3.declare_scratch(ExprTyView::Int).int_const(0).store(index);
            let item_ty = match ty {
                Some(t) => declared_type(c, t),
                None => elem_ty,
            };
            let s5 = s4.declare_local(var, item_ty);
            &&& plain(s, s2)
            &&& plain(s2, s3)
            &&& plain(s3, s4)
            &&& plain(s4, s5)
            &&& size_code(c, s5.load(index).load(coll), list) matches Ok(s6) ==> {
                let s7 = s6.op(Opcode::CmpLt, -1);
                let s7b = s7.branch(Opcode::IfFalse, -1).load(coll).load(index);
                &&& plain(s5, s6)
                &&& plain(s6, s7)
                &&& plain(s7, s7b)
                &&& element_code(c, s7b, list) matches Ok(s8) ==> plain(s7b, s8) && plain(
                    s8,
                    s8.store(s4.next_local),
                )
            }
        },
{
    broadcast use group_frame;

}

proof fn foreach_keeps(
    c: CxView,
    s: State,
    ty: Option<Type>,
    var: Seq<char>,
    iterable: Expr,
    body: Seq<Stmt>,
    fin: Seq<Seq<Stmt>>,
)
    ensures
        done_keeps(s, foreach_code(c, s, ty, var, iterable, body, fin)),
    decreases c.level, expr_size(iterable) + block_size(body) + fin_size(fin), 3nat, 0nat,
{
    broadcast use group_frame;

    expr_plain(c, s.push_scope(), iterable);
    if let Ok((s1, iterable_ty)) = expr_code(c, s.push_scope(), iterable) {
        foreach_head_keeps(c, s1, ty, var, iterable_ty);
        if let Ok((s2, coll_ty, list, elem_ty)) = iterated(c, s1, iterable_ty) {
            let coll = s2.next_local;
            let s3 = s2.declare_scratch(coll_ty).store(coll);
            let index = s3.next_local;
            let s4 = s3.declare_scratch(ExprTyView::Int).int_const(0).store(index);
            let item_ty = match ty {
                Some(t) => declared_type(c, t),
                None => elem_ty,
            };
            let s5 = s4.declare_local(var, item_ty);
            assert(plain(s, s5));
            if let Ok(s6) = size_code(c, s5.load(index).load(coll), list) {
                let s7 = s6.op(Opcode::CmpLt, -1);
                assert(plain(s5, s7));
                let s7b = s7.branch(Opcode::IfFalse, -1).load(coll).load(index);
                if let Ok(s8) = element_code(c, s7b, list) {
                    let s8b = s8.store(s4.next_local);
                    assert(plain(s7, s8b));
                    let l0 = new_loop(fin.len() as int, false);
                    let inside = c.telling(var, item_type(c.site(), c.typings, ty, iterable));
                    block_keeps(inside, s8b.enter_loop(l0), body, fin);
                    if let Ok(s10) = block_code(inside, s8b.enter_loop(l0), body, fin) {
                        loop_keeps(s8b, l0, s10);
                        let l = s10.this_loop();
                        let s10b = s10.leave_loop().aim_all(l.continue_patches, s10.pc());
                        assert(keeps(s8b, s10b));
                        let s11 = s10b.op_iinc(index, 1);
                        assert(plain(s10b, s11));
                        assert(keeps(s7, s11));
                        assert(keeps(s5, s11));
                        loop_end_keeps(s5, s11, s5.pc(), Some(s7.pc()), l.break_patches);
                    }
                }
            }
        }
    }
}

/// Whether each of the jumps lies at or after `lo`.
pub open spec fn cases_from(jumps: Seq<(int, int)>, lo: int) -> bool {
    forall|i: int| 0 <= i < jumps.len() ==> lo <= (#[trigger] jumps[i]).1
}

proof fn dispatch_keeps(
    c: CxView,
    a: State,
    s: State,
    subject: u16,
    ty: ExprTyView,
    cases: Seq<SwitchCase>,
    i: int,
    jumps: Seq<(int, int)>,
    default: Option<int>,
)
    requires
        plain(a, s),
        cases_from(jumps, a.pc()),
    ensures
        dispatch_code(c, s, subject, ty, cases, i, jumps, default) matches Ok((t, js, _))
            ==> plain(a, t) && cases_from(js, a.pc()),
    decreases c.level, cases_size(cases), 1nat, (cases.len() - i) as nat,
{
    broadcast use group_frame;

    if 0 <= i < cases.len() {
        case_smaller(cases, i);
        if let Some(value) = cases[i].value {
            expr_plain(c, s.load(subject), value);
            if let Ok((s1, value_ty)) = expr_code(c, s.load(subject), value) {
                assert(done_plain(s1, coerced(s1, value_ty, ty, "switch case"@)));
                if let Ok(s2) = coerced(s1, value_ty, ty, "switch case"@) {
                    let s3 = s2.op(Opcode::CmpEq, -1);
                    assert(plain(a, s1));
                    assert(plain(a, s3));
                    let s4 = s3.branch(Opcode::IfTrue, -1);
                    assert(plain(a, s4));
                    dispatch_keeps(
                        c,
                        a,
                        s4,
                        subject,
                        ty,
                        cases,
                        i + 1,
                        jumps.push((i, s3.pc())),
                        default,
                    );
                }
            }
        } else {
            dispatch_keeps(c, a, s, subject, ty, cases, i + 1, jumps, Some(i));
        }
    }
}

proof fn bodies_keeps(
    c: CxView,
    s: State,
    cases: Seq<SwitchCase>,
    fin: Seq<Seq<Stmt>>,
    i: int,
    starts: Seq<int>,
)
    ensures
        bodies_code(c, s, cases, fin, i, starts) matches Ok((t, _)) ==> keeps(s, t),
    decreases c.level, cases_size(cases) + fin_size(fin), 1nat, (cases.len() - i) as nat,
{
    broadcast use group_frame;

    assert(plain(s, s));
    if 0 <= i < cases.len() {
        case_smaller(cases, i);
        block_keeps(c, s, cases[i].body@, fin);
        if let Ok(s1) = block_code(c, s, cases[i].body@, fin) {
            bodies_keeps(c, s1, cases, fin, i + 1, starts.push(s.pc()));
        }
    }
}

proof fn aimed_cases_keeps(a: State, s: State, jumps: Seq<(int, int)>, starts: Seq<int>, n: int)
    requires
        keeps(a, s),
        cases_from(jumps, a.pc()),
        n <= jumps.len(),
    ensures
        keeps(a, aimed_cases(s, jumps, starts, n)),
    decreases n,
{
    broadcast use group_frame;

    if n > 0 {
        aimed_cases_keeps(a, s, jumps, starts, n - 1);
        assert(a.pc() <= jumps[n - 1].1);
    }
}

proof fn switch_keeps(
    c: CxView,
    s: State,
    subject: Expr,
    cases: Seq<SwitchCase>,
    fin: Seq<Seq<Stmt>>,
)
    ensures
        done_keeps(s, switch_code(c, s, subject, cases, fin)),
    decreases c.level, expr_size(subject) + cases_size(cases) + fin_size(fin), 3nat, 0nat,
{
    broadcast use group_frame;

    expr_plain(c, s, subject);
    if let Ok((s1, ty)) = expr_code(c, s, subject) {
        let local = s1.next_local;
        let s2 = s1.declare_scratch(ty).store(local);
        assert(plain(s, s2));
        dispatch_keeps(c, s2, s2, local, ty, cases, 0, Seq::empty(), None);
        if let Ok((s3, jumps, default)) = dispatch_code(c, s2, local, ty, cases, 0, Seq::empty(), None) {
            let s3b = s3.branch(Opcode::Goto, 0);
            let l0 = new_loop(fin.len() as int, true);
            assert(plain(s3, s3b));
            bodies_keeps(c, s3b.enter_loop(l0), cases, fin, 0, Seq::empty());
            if let Ok((s5, starts)) = bodies_code(c, s3b.enter_loop(l0), cases, fin, 0, Seq::empty()) {
                loop_keeps(s3b, l0, s5);
                let l = s5.this_loop();
                assert(keeps(s2, s5.leave_loop()));
                aimed_cases_keeps(s2, s5.leave_loop(), jumps, starts, jumps.len() as int);
                let s6 = aimed_cases(s5.leave_loop(), jumps, starts, jumps.len() as int);
                let s7 = s6.aim(
                    s3.pc(),
                    match default {
                        Some(i) => starts[i],
                        None => s5.pc(),
                    },
                );
                assert(keeps(s2, s7));
                assert(keeps(s2, s7.aim_all(l.break_patches, s5.pc())));
            }
        }
    }
}

pub proof fn catches_keeps(
    c: CxView,
    a: State,
    s: State,
    catches: Seq<CatchClause>,
    fin: Seq<Seq<Stmt>>,
    i: int,
    jumps: Seq<int>,
    handlers: Seq<(int, u16)>,
)
    requires
        keeps(a, s),
        all_from(jumps, a.pc()),
    ensures
        catches_code(c, s, catches, fin, i, jumps, handlers) matches Ok((t, js, _)) ==> keeps(s, t)
            && keeps(a, t) && all_from(js, a.pc()),
    decreases c.level, catches_size(catches) + fin_size(fin), 1nat, (catches.len() - i) as nat,
{
    broadcast use group_frame;

    assert(plain(s, s));
    if 0 <= i < catches.len() {
        catch_smaller(catches, i);
        let fqcn = class_name(c, catches[i].ty@);
        let (s1, class) = s.class(fqcn);
        let s2 = s1.push_scope();
        let s3 = s2.declare_local(catches[i].var@, ExprTyView::Object(fqcn)).store(s2.next_local);
        assert(plain(s, s3));
        let inside = c.telling(catches[i].var@, Some(TypeView::Named(fqcn)));
        stmts_keeps(inside, s3, catches[i].body@, fin, 0);
        if let Ok(s4) = stmts_code(inside, s3, catches[i].body@, fin, 0) {
            let s5 = s4.pop_scope();
            assert(keeps(s, s5));
            assert(keeps(a, s5));
            let s6 = s5.branch(Opcode::Goto, 0);
            assert(plain(s5, s6));
            catches_keeps(
                c,
                a,
                s6,
                catches,
                fin,
                i + 1,
                jumps.push(s5.pc()),
                handlers.push((s.pc(), class)),
            );
        }
    }
}

proof fn guarded_keeps(s: State, handlers: Seq<(int, u16)>, start: int, end: int, n: int)
    ensures
        keeps(s, guarded(s, handlers, start, end, n)),
    decreases n,
{
    broadcast use group_frame;

    assert(plain(s, s));
    if n > 0 {
        guarded_keeps(s, handlers, start, end, n - 1);
    }
}

proof fn try_keeps(
    c: CxView,
    s: State,
    body: Seq<Stmt>,
    catches: Seq<CatchClause>,
    finally: Option<Vec<Stmt>>,
    fin: Seq<Seq<Stmt>>,
)
    ensures
        done_keeps(s, try_code(c, s, body, catches, finally, fin)),
    decreases
        c.level,
        block_size(body) + catches_size(catches) + opt_block_size(finally) + fin_size(fin),
        3nat,
        0nat,
{
    broadcast use group_frame;

    let inner = inner_fin(fin, finally);
    if finally is Some {
        fin_push(fin, finally->0@);
    }
    let inside = if finally is Some {
        c.guarded()
    } else {
        c
    };
    block_keeps(inside, s, body, inner);
    if let Ok(s1) = block_code(inside, s, body, inner) {
        let s1b = s1.branch(Opcode::Goto, 0);
        assert(plain(s1, s1b));
        assert(keeps(s, s1b));
        catches_keeps(inside, s, s1b, catches, inner, 0, seq![s1.pc()], Seq::empty());
        if let Ok((s2, jumps, handlers)) = catches_code(
            inside,
            s1b,
            catches,
            inner,
            0,
            seq![s1.pc()],
            Seq::empty(),
        ) {
            if let Some(block) = finally {
                let s3 = s2.declare_scratch(ExprTyView::Object("Exception"@)).store(s2.next_local);
                assert(plain(s2, s3));
                block_keeps(c, s3, block@, fin);
                if let Ok(s4) = block_code(c, s3, block@, fin) {
                    let s5 = s4.load(s2.next_local).op(Opcode::Throw, -1);
                    assert(plain(s4, s5));
                    block_keeps(c, s5, block@, fin);
                    if let Ok(s6) = block_code(c, s5, block@, fin) {
                        assert(keeps(s, s4));
                        assert(keeps(s, s6));
                        let s7 = s6.aim_all(jumps, s5.pc());
                        assert(keeps(s, s7));
                        guarded_keeps(s7, handlers, s.pc(), s1.pc(), handlers.len() as int);
                    }
                }
            } else {
                let s3 = s2.aim_all(jumps, s2.pc());
                assert(keeps(s, s3));
                guarded_keeps(s3, handlers, s.pc(), s1.pc(), handlers.len() as int);
            }
        }
    }
}

} // verus!
