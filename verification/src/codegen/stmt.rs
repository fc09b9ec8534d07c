//! Compilation of statements.

use crate::ast::{CatchClause, Expr, Stmt, StmtKind, SwitchCase, Type};
use crate::bytecode::module::ExceptionTableEntry;
use crate::bytecode::opcode::Opcode;
use crate::codegen::emitter::{new_loop, positions, typings_views, Cx, Emitter, State};
use crate::codegen::error::CodegenError;
use crate::codegen::expr_ty::{box_fqcn, expr_ty_of, expr_ty_to_type, show, ExprTy, ExprTyView};
use crate::codegen::growth::{grows, grows_longer};
use crate::codegen::nesting::{loop_nests, nests, scope_nests, scopes_kept};
use crate::codegen::lowered::{
    aimed_cases, block_code, bodies_code, catches_code, declared_type, dispatch_code, element_code,
    for_code, foreach_code, guarded, if_code, inner_fin, iterated, loop_end, loop_test_code,
    not_iterable, replay_code, size_code, steps_code, stmt_code, stmts_code, switch_code, try_code,
    untyped, var_decl_code, var_init_code, while_code,
};
use crate::codegen::ops::{done_as, resolve_class_name, unsupported};
use crate::native_generics::method_signature;
use crate::probe::told_item;
use crate::resolve::{opt_string, resolve_type};
use crate::size::{
    block_size, case_smaller, cases_size, catch_smaller, catches_size, expr_parts, expr_size,
    exprs_size, fin_push, fin_size, frame_smaller, item_smaller, opt_block_size, opt_size,
    stack_prefix, stmt_no_larger, stmt_size,
};
use crate::text::{cat3, owned, starts_with};
use vstd::prelude::*;

verus! {

broadcast use {crate::codegen::growth::group_growth, crate::codegen::nesting::group_nesting};

/// The `finally` blocks around a statement, outermost first.
pub open spec fn blocks(v: Seq<&Vec<Stmt>>) -> Seq<Seq<Stmt>> {
    v.map_values(|b: &Vec<Stmt>| b@)
}

/// The outermost `k` of the blocks.
fn outer_blocks<'b>(fin: &Vec<&'b Vec<Stmt>>, k: usize) -> (r: Vec<&'b Vec<Stmt>>)
    requires
        k <= fin@.len(),
    ensures
        blocks(r@) == blocks(fin@).take(k as int),
{
    let mut out: Vec<&'b Vec<Stmt>> = Vec::new();
    let mut i: usize = 0;
    while i < k
        invariant
            i <= k,
            k <= fin@.len(),
            out@ =~= fin@.take(i as int),
        decreases k - i,
    {
        out.push(fin[i]);
        i = i + 1;
    }
    assert(blocks(out@) =~= blocks(fin@).take(k as int));
    out
}

fn untyped_error(name: &str) -> (r: CodegenError)
    ensures
        r@ == untyped(name@),
{
    CodegenError::Unsupported(cat3("variable '", name, "' needs a declared type"))
}

fn declared_ty(c: Cx, ty: &Type) -> (r: ExprTy)
    ensures
        r@ == declared_type(c@, *ty),
{
    expr_ty_of(&resolve_type(ty, c.unit.imports))
}

/// What a `for` loop walks.
struct Walk {
    coll_ty: ExprTy,
    /// The class of the list, where it is one.
    list: Option<String>,
    elem_ty: ExprTy,
}

fn not_iterable_error(ty: &ExprTy) -> (r: CodegenError)
    ensures
        r@ == not_iterable(ty@),
{
    CodegenError::Unsupported(
        cat3(
            "for-each over non-iterable type ",
            show(ty).as_str(),
            " (arrays, system.List and system.Map only)",
        ),
    )
}

impl Emitter {
    pub fn compile_block(&mut self, c: Cx, block: &Vec<Stmt>, fin: &Vec<&Vec<Stmt>>) -> (r: Result<
        (),
        CodegenError,
    >)
        ensures
            done_as(r, final(self)@, block_code(c@, old(self)@, block@, blocks(fin@))),
            grows(old(self)@, final(self)@),
            r is Ok ==> nests(old(self)@, final(self)@) && scopes_kept(
                old(self)@,
                final(self)@,
                old(self)@.scopes.len() as int,
            ),
        decreases c@.level, block_size(block@) + fin_size(blocks(fin@)), 2nat, 0nat,
    {
        self.push_scope();
        self.compile_stmts(c, block, fin)?;
        proof {
            scope_nests(old(self)@, self@);
        }
        self.pop_scope();
        Ok(())
    }

    pub fn compile_stmts(&mut self, c: Cx, block: &Vec<Stmt>, fin: &Vec<&Vec<Stmt>>) -> (r: Result<
        (),
        CodegenError,
    >)
        ensures
            done_as(r, final(self)@, stmts_code(c@, old(self)@, block@, blocks(fin@), 0)),
            grows(old(self)@, final(self)@),
            r is Ok ==> nests(old(self)@, final(self)@),
        decreases
            c@.level,
            block_size(block@) + fin_size(blocks(fin@)),
            1nat,
            block@.len() + 1,
    {
        self.compile_stmts_from(c, block, fin, 0)
    }

    /// Compiles the statements of a list from the one at `from` on.
    pub fn compile_stmts_from(
        &mut self,
        c: Cx,
        block: &Vec<Stmt>,
        fin: &Vec<&Vec<Stmt>>,
        from: usize,
    ) -> (r: Result<(), CodegenError>)
        ensures
            done_as(
                r,
                final(self)@,
                stmts_code(c@, old(self)@, block@, blocks(fin@), from as int),
            ),
            grows(old(self)@, final(self)@),
            r is Ok ==> nests(old(self)@, final(self)@),
        decreases c@.level, block_size(block@) + fin_size(blocks(fin@)), 1nat, block@.len(),
    {
        let ghost whole = stmts_code(c@, self@, block@, blocks(fin@), from as int);
        let mut typings = c.typings.copy();
        let mut i: usize = from;
        while i < block.len()
            invariant
                grows(old(self)@, self@),
                nests(old(self)@, self@),
                whole == stmts_code(c@, old(self)@, block@, blocks(fin@), from as int),
                whole == stmts_code(
                    c@.with_typings(typings@),
                    self@,
                    block@,
                    blocks(fin@),
                    i as int,
                ),
            decreases block@.len() - i,
        {
            proof {
                stmt_no_larger(block@, i as int);
            }
            self.compile_stmt(c.with_typings(&typings), &block[i], fin)?;
            typings.pass(&c.site(), &block[i]);
            i = i + 1;
        }
        Ok(())
    }

    /// Compiles the `finally` blocks that an exit passes through.
    fn replay_finally_blocks(&mut self, c: Cx, fin: &Vec<&Vec<Stmt>>, from: usize) -> (r: Result<
        (),
        CodegenError,
    >)
        ensures
            done_as(
                r,
                final(self)@,
                replay_code(c@, old(self)@, blocks(fin@), from as int, fin@.len() as int),
            ),
            grows(old(self)@, final(self)@),
            r is Ok ==> nests(old(self)@, final(self)@),
        decreases c@.level, fin_size(blocks(fin@)), 3nat, 0nat,
    {
        let ghost bs = blocks(fin@);
        let ghost whole = replay_code(c@, self@, bs, from as int, fin@.len() as int);
        let mut k: usize = fin.len();
        while k > from
            invariant
                grows(old(self)@, self@),
                nests(old(self)@, self@),
                k <= fin@.len(),
                bs == blocks(fin@),
                whole == replay_code(c@, old(self)@, bs, from as int, fin@.len() as int),
                whole == replay_code(c@, self@, bs, from as int, k as int),
            decreases k,
        {
            proof {
                frame_smaller(bs, k as int - 1);
                stack_prefix(bs, k as int);
            }
            let outer = outer_blocks(fin, k - 1);
            assert(bs[k as int - 1] == fin@[k as int - 1]@);
            if k - 1 < c.tries.len() {
                let tries = c.outer_tries(k - 1);
                let inside = Cx {
                    unit: c.unit,
                    level: c.level,
                    typings: c.tries[k - 1],
                    tries: &tries,
                };
                assert(typings_views(c.tries@)[k as int - 1] == c.tries@[k as int - 1]@);
                assert(inside@ == c@.at_try(k as int - 1));
                self.compile_stmts(inside, fin[k - 1], &outer)?;
            } else {
                self.compile_stmts(c, fin[k - 1], &outer)?;
            }
            k = k - 1;
        }
        Ok(())
    }

    pub fn compile_stmt(&mut self, c: Cx, stmt: &Stmt, fin: &Vec<&Vec<Stmt>>) -> (r: Result<
        (),
        CodegenError,
    >)
        ensures
            done_as(r, final(self)@, stmt_code(c@, old(self)@, *stmt, blocks(fin@))),
            grows(old(self)@, final(self)@),
            r is Ok ==> nests(old(self)@, final(self)@),
        decreases c@.level, stmt_size(*stmt) + fin_size(blocks(fin@)), 0nat, 0nat,
    {
        self.record_line(stmt.line);
        match &stmt.kind {
            StmtKind::Return(value) => {
                match value {
                    Some(e) => {
                        let ty = self.compile_expr(c, e)?;
                        self.infer_return(ty);
                        self.replay_finally_blocks(c, fin, 0)?;
                        self.exit_op(Opcode::ReturnValue);
                    },
                    None => {
                        self.replay_finally_blocks(c, fin, 0)?;
                        self.exit_op(Opcode::Return);
                    },
                }
                Ok(())
            },
            StmtKind::Expr(e) => self.compile_expr_stmt(c, e),
            StmtKind::VarDecl { ty, name, init, .. } => match init {
                Some(e) => self.compile_var_init(c, ty, name.as_str(), e),
                None => self.compile_var_decl(c, ty, name.as_str()),
            },
            StmtKind::ThisCall(args) => self.compile_this_call(c, args),
            StmtKind::SuperCall(args) => self.compile_super_call(c, args),
            StmtKind::Throw(e) => {
                self.compile_expr(c, e)?;
                self.op(Opcode::Throw, -1);
                Ok(())
            },
            StmtKind::Try { body, catches, finally } => self.compile_try(
                c,
                body,
                catches,
                finally,
                fin,
            ),
            StmtKind::If { cond, then_branch, else_branch } => self.compile_if(
                c,
                cond,
                then_branch,
                else_branch,
                fin,
            ),
            StmtKind::While { cond, body } => self.compile_while(c, cond, body, fin),
            StmtKind::For { init, cond, step, body } => self.compile_for(
                c,
                init,
                cond,
                step,
                body,
                fin,
            ),
            StmtKind::ForEach { ty, var, iterable, body } => self.compile_foreach(
                c,
                ty,
                var.as_str(),
                iterable,
                body,
                fin,
            ),
            StmtKind::Break => {
                if self.loops.len() == 0 {
                    return Err(unsupported("'break' outside a loop or switch"));
                }
                assert(self@.loops.last() == self.loops@.last()@);
                let depth: usize = self.loops[self.loops.len() - 1].finally_depth;
                self.replay_finally_blocks(c, fin, depth)?;
                let jump: usize = self.branch(Opcode::Goto, 0);
                let n: usize = self.loops.len();
                if n > 0 {
                    self.add_break(n - 1, jump);
                } else {
                    proof {
                        reveal(State::add_break);
                    }
                }
                Ok(())
            },
            StmtKind::Continue => {
                let k: usize = match self.nearest_loop() {
                    Some(k) => k,
                    None => return Err(unsupported("'continue' outside a loop")),
                };
                assert(self@.loops[k as int] == self.loops@[k as int]@);
                let depth: usize = self.loops[k].finally_depth;
                self.replay_finally_blocks(c, fin, depth)?;
                let jump: usize = self.branch(Opcode::Goto, 0);
                if let Some(j) = self.nearest_loop() {
                    self.add_continue(j, jump);
                }
                Ok(())
            },
            StmtKind::Block(block) => self.compile_block(c, block, fin),
            StmtKind::Switch { subject, cases } => self.compile_switch(c, subject, cases, fin),
        }
    }

    fn compile_var_init(&mut self, c: Cx, ty: &Option<Type>, name: &str, init: &Expr) -> (r: Result<
        (),
        CodegenError,
    >)
        ensures
            done_as(r, final(self)@, var_init_code(c@, old(self)@, *ty, name@, *init)),
            grows(old(self)@, final(self)@),
            r is Ok ==> nests(old(self)@, final(self)@),
        decreases c@.level, expr_size(*init), 1nat, 0nat,
    {
        if c.unit.boxed_captures.contains(name) {
            let declared = match ty {
                Some(t) => declared_ty(c, t),
                None => return Err(untyped_error(name)),
            };
            self.emit_new(box_fqcn(&expr_ty_to_type(&declared)).as_str());
            self.op(Opcode::Dup, 1);
            let init_ty = self.compile_expr(c, init)?;
            self.coerce_value(&init_ty, &declared, name)?;
            let field: u16 = self.box_value_field_ref(&declared);
            self.op_u16(Opcode::SetField, field, -2);
            let slot: u16 = self.declare_ref_param(owned(name), declared);
            self.emit_store(slot);
        } else {
            let init_ty = self.compile_expr(c, init)?;
            let declared = match ty {
                Some(t) => declared_ty(c, t),
                None => init_ty.copy(),
            };
            self.coerce_value(&init_ty, &declared, name)?;
            let slot: u16 = self.declare_local(owned(name), declared);
            self.emit_store(slot);
        }
        Ok(())
    }

    fn compile_var_decl(&mut self, c: Cx, ty: &Option<Type>, name: &str) -> (r: Result<
        (),
        CodegenError,
    >)
        ensures
            done_as(r, final(self)@, var_decl_code(c@, old(self)@, *ty, name@)),
            grows(old(self)@, final(self)@),
            r is Ok ==> nests(old(self)@, final(self)@),
    {
        let declared = match ty {
            Some(t) => declared_ty(c, t),
            None => return Err(untyped_error(name)),
        };
        if c.unit.boxed_captures.contains(name) {
            self.declare_boxed_var_uninit(declared, name);
        } else {
            self.declare_local(owned(name), declared);
        }
        Ok(())
    }

    fn compile_if(
        &mut self,
        c: Cx,
        cond: &Expr,
        then_branch: &Vec<Stmt>,
        else_branch: &Option<Vec<Stmt>>,
        fin: &Vec<&Vec<Stmt>>,
    ) -> (r: Result<(), CodegenError>)
        ensures
            done_as(
                r,
                final(self)@,
                if_code(
                    c@,
                    old(self)@,
                    *cond,
                    then_branch@,
                    *else_branch,
                    blocks(fin@),
                ),
            ),
            grows(old(self)@, final(self)@),
            r is Ok ==> nests(old(self)@, final(self)@),
        decreases
            c@.level,
            expr_size(*cond) + block_size(then_branch@) + opt_block_size(*else_branch) + fin_size(
                blocks(fin@),
            ),
            3nat,
            0nat,
    {
        proof {
            expr_parts(*cond);
        }
        self.compile_expr_bool(c, cond)?;
        let to_else: usize = self.branch(Opcode::IfFalse, -1);
        let outside = self.narrow(c, cond);
        let mut typings = c.typings.copy();
        typings.cast(&c.site(), cond, then_branch);
        self.compile_block(c.with_typings(&typings), then_branch, fin)?;
        if let Some((name, ty)) = outside {
            self.set_local_ty(name.as_str(), ty);
        }
        match else_branch {
            Some(block) => {
                let to_end: usize = self.branch(Opcode::Goto, 0);
                self.patch_branch(to_else);
                self.compile_block(c, block, fin)?;
                self.patch_branch(to_end);
            },
            None => self.patch_branch(to_else),
        }
        Ok(())
    }

    fn emit_loop_end(&mut self, top: usize, exit: Option<usize>, breaks: &Vec<usize>)
        ensures
            final(self)@ == loop_end(
                old(self)@,
                top as int,
                match exit {
                    Some(pc) => Some(pc as int),
                    None => None,
                },
                positions(breaks@),
            ),
            grows(old(self)@, final(self)@),
            nests(old(self)@, final(self)@),
    {
        self.emit_goto_to(top);
        if let Some(pc) = exit {
            self.patch_branch(pc);
        }
        let end: usize = self.pc();
        self.patch_all(breaks, end);
    }

    fn compile_while(
        &mut self,
        c: Cx,
        cond: &Expr,
        body: &Vec<Stmt>,
        fin: &Vec<&Vec<Stmt>>,
    ) -> (r: Result<(), CodegenError>)
        ensures
            done_as(r, final(self)@, while_code(c@, old(self)@, *cond, body@, blocks(fin@))),
            grows(old(self)@, final(self)@),
            r is Ok ==> nests(old(self)@, final(self)@),
        decreases
            c@.level,
            expr_size(*cond) + block_size(body@) + fin_size(blocks(fin@)),
            3nat,
            0nat,
    {
        proof {
            expr_parts(*cond);
        }
        let top: usize = self.pc();
        self.compile_expr_bool(c, cond)?;
        let exit: usize = self.branch(Opcode::IfFalse, -1);
        let ghost outside = self@;
        assert(nests(old(self)@, outside));
        self.enter_loop(fin.len(), false);
        self.compile_block(c, body, fin)?;
        proof {
            loop_nests(outside, new_loop(fin@.len() as int, false), self@);
        }
        let ctx = self.leave_loop();
        assert(nests(old(self)@, self@));
        self.patch_all(&ctx.continue_patches, top);
        self.emit_loop_end(top, Some(exit), &ctx.break_patches);
        Ok(())
    }

    #[verifier::rlimit(40)]
    fn compile_for(
        &mut self,
        c: Cx,
        init: &Vec<Stmt>,
        cond: &Option<Expr>,
        step: &Vec<Expr>,
        body: &Vec<Stmt>,
        fin: &Vec<&Vec<Stmt>>,
    ) -> (r: Result<(), CodegenError>)
        ensures
            done_as(
                r,
                final(self)@,
                for_code(c@, old(self)@, init@, *cond, step@, body@, blocks(fin@)),
            ),
            grows(old(self)@, final(self)@),
            r is Ok ==> nests(old(self)@, final(self)@),
        decreases
            c@.level,
            block_size(init@) + opt_size(*cond) + exprs_size(step@) + block_size(body@) + fin_size(
                blocks(fin@),
            ),
            3nat,
            0nat,
    {
        self.push_scope();
        let ghost opened = self@;
        self.compile_stmts(c, init, fin)?;
        let mut typings = c.typings.copy();
        typings.pass_all(&c.site(), init);
        let c = c.with_typings(&typings);
        let top: usize = self.pc();
        let exit = self.compile_loop_test(c, cond)?;
        let ghost outside = self@;
        assert(nests(opened, outside));
        self.enter_loop(fin.len(), false);
        self.compile_block(c, body, fin)?;
        let step_pc: usize = self.pc();
        proof {
            loop_nests(outside, new_loop(fin@.len() as int, false), self@);
        }
        let ctx = self.leave_loop();
        assert(nests(opened, self@));
        self.patch_all(&ctx.continue_patches, step_pc);
        self.compile_steps(c, step)?;
        self.emit_loop_end(top, exit, &ctx.break_patches);
        assert(nests(opened, self@));
        proof {
            scope_nests(old(self)@, self@);
        }
        self.pop_scope();
        Ok(())
    }

    fn compile_loop_test(&mut self, c: Cx, cond: &Option<Expr>) -> (r: Result<
        Option<usize>,
        CodegenError,
    >)
        ensures
            ({
                let want = loop_test_code(c@, old(self)@, *cond);
                match r {
                    Ok(Some(pc)) => want == Result::<(State, Option<int>), Seq<char>>::Ok(
                        (final(self)@, Some(pc as int)),
                    ),
                    Ok(None) => want == Result::<(State, Option<int>), Seq<char>>::Ok(
                        (final(self)@, None),
                    ),
                    Err(e) => want == Result::<(State, Option<int>), Seq<char>>::Err(e@),
                }
            }),
            grows(old(self)@, final(self)@),
            r is Ok ==> nests(old(self)@, final(self)@),
        decreases c@.level, opt_size(*cond), 2nat, 0nat,
    {
        match cond {
            Some(e) => {
                self.compile_expr_bool(c, e)?;
                let exit: usize = self.branch(Opcode::IfFalse, -1);
                Ok(Some(exit))
            },
            None => Ok(None),
        }
    }

    fn compile_steps(&mut self, c: Cx, steps: &Vec<Expr>) -> (r: Result<(), CodegenError>)
        ensures
            done_as(r, final(self)@, steps_code(c@, old(self)@, steps@, 0)),
            grows(old(self)@, final(self)@),
            r is Ok ==> nests(old(self)@, final(self)@),
        decreases c@.level, exprs_size(steps@), 2nat, steps@.len(),
    {
        let ghost whole = steps_code(c@, self@, steps@, 0);
        let mut i: usize = 0;
        while i < steps.len()
            invariant
                grows(old(self)@, self@),
                nests(old(self)@, self@),
                i <= steps@.len(),
                whole == steps_code(c@, old(self)@, steps@, 0),
                whole == steps_code(c@, self@, steps@, i as int),
            decreases steps@.len() - i,
        {
            proof {
                item_smaller(steps@, i as int);
            }
            self.compile_expr_stmt(c, &steps[i])?;
            i = i + 1;
        }
        Ok(())
    }

    fn emit_iterated(&mut self, c: Cx, ty: ExprTy) -> (r: Result<Walk, CodegenError>)
        ensures
            ({
                let want = iterated(c@, old(self)@, ty@);
                match r {
                    Ok(w) => want == Result::<
                        (State, ExprTyView, Option<Seq<char>>, ExprTyView),
                        Seq<char>,
                    >::Ok((final(self)@, w.coll_ty@, opt_string(w.list), w.elem_ty@)),
                    Err(e) => want == Result::<
                        (State, ExprTyView, Option<Seq<char>>, ExprTyView),
                        Seq<char>,
                    >::Err(e@),
                }
            }),
            grows(old(self)@, final(self)@),
            r is Ok ==> nests(old(self)@, final(self)@),
    {
        let mut coll_ty = ty;
        let mut entries: Option<ExprTy> = None;
        if let ExprTy::Object(fqcn) = &coll_ty {
            if starts_with(fqcn.as_str(), "system.Map<") {
                match method_signature(c.unit.natives, fqcn.as_str(), "entries", 0) {
                    Some((_, ret)) => {
                        self.emit_native_instance_call(c, fqcn.as_str(), "entries", 0)?;
                        entries = Some(expr_ty_of(&ret));
                    },
                    None => {
                        return Err(
                            CodegenError::Unsupported(
                                cat3("'", fqcn.as_str(), "' has no method entries()"),
                            ),
                        );
                    },
                }
            }
        }
        if let Some(t) = entries {
            coll_ty = t;
        }
        match &coll_ty {
            ExprTy::Array(elem) => {
                let elem_ty = elem.copy();
                Ok(Walk { coll_ty, list: None, elem_ty })
            },
            ExprTy::Object(fqcn) => {
                if !starts_with(fqcn.as_str(), "system.List<") {
                    return Err(not_iterable_error(&coll_ty));
                }
                match method_signature(c.unit.natives, fqcn.as_str(), "get", 1) {
                    Some((_, ret)) => {
                        let list = Some(fqcn.clone());
                        Ok(Walk { coll_ty, list, elem_ty: expr_ty_of(&ret) })
                    },
                    None => Err(
                        CodegenError::Unsupported(
                            cat3("'", fqcn.as_str(), "' has no method get(int)"),
                        ),
                    ),
                }
            },
            _ => Err(not_iterable_error(&coll_ty)),
        }
    }

    fn emit_size(&mut self, c: Cx, list: &Option<String>) -> (r: Result<(), CodegenError>)
        ensures
            done_as(r, final(self)@, size_code(c@, old(self)@, opt_string(*list))),
            grows(old(self)@, final(self)@),
            r is Ok ==> nests(old(self)@, final(self)@),
    {
        match list {
            Some(fqcn) => self.emit_native_instance_call(c, fqcn.as_str(), "size", 0),
            None => {
                self.op(Opcode::ArrayLength, 0);
                Ok(())
            },
        }
    }

    fn emit_element(&mut self, c: Cx, list: &Option<String>) -> (r: Result<(), CodegenError>)
        ensures
            done_as(r, final(self)@, element_code(c@, old(self)@, opt_string(*list))),
            grows(old(self)@, final(self)@),
            r is Ok ==> nests(old(self)@, final(self)@),
    {
        match list {
            Some(fqcn) => self.emit_native_instance_call(c, fqcn.as_str(), "get", 1),
            None => {
                self.op(Opcode::ArrayLoad, -1);
                Ok(())
            },
        }
    }

    fn compile_foreach(
        &mut self,
        c: Cx,
        ty: &Option<Type>,
        var: &str,
        iterable: &Expr,
        body: &Vec<Stmt>,
        fin: &Vec<&Vec<Stmt>>,
    ) -> (r: Result<(), CodegenError>)
        ensures
            done_as(
                r,
                final(self)@,
                foreach_code(c@, old(self)@, *ty, var@, *iterable, body@, blocks(fin@)),
            ),
            grows(old(self)@, final(self)@),
            r is Ok ==> nests(old(self)@, final(self)@),
        decreases
            c@.level,
            expr_size(*iterable) + block_size(body@) + fin_size(blocks(fin@)),
            3nat,
            0nat,
    {
        proof {
            expr_parts(*iterable);
        }
        self.push_scope();
        let ghost opened = self@;
        let iterable_ty = self.compile_expr(c, iterable)?;
        let walk = self.emit_iterated(c, iterable_ty)?;
        let coll: u16 = self.declare_scratch_local(walk.coll_ty);
        self.emit_store(coll);
        let index: u16 = self.declare_scratch_local(ExprTy::Int);
        self.emit_int_const(0);
        self.emit_store(index);
        let item_ty = match ty {
            Some(t) => declared_ty(c, t),
            None => walk.elem_ty,
        };
        let item: u16 = self.declare_local(owned(var), item_ty);
        assert(nests(opened, self@));
        let top: usize = self.pc();
        self.emit_load(index);
        self.emit_load(coll);
        self.emit_size(c, &walk.list)?;
        self.op(Opcode::CmpLt, -1);
        let exit: usize = self.branch(Opcode::IfFalse, -1);
        self.emit_load(coll);
        self.emit_load(index);
        self.emit_element(c, &walk.list)?;
        self.emit_store(item);
        let ghost outside = self@;
        assert(nests(opened, outside));
        self.enter_loop(fin.len(), false);
        let mut typings = c.typings.copy();
        let told = told_item(&c.site(), c.typings, ty, iterable);
        typings.tell(var, told);
        self.compile_block(c.with_typings(&typings), body, fin)?;
        let step_pc: usize = self.pc();
        proof {
            loop_nests(outside, new_loop(fin@.len() as int, false), self@);
        }
        let ctx = self.leave_loop();
        assert(nests(opened, self@));
        self.patch_all(&ctx.continue_patches, step_pc);
        self.op_iinc(index, 1);
        self.emit_loop_end(top, Some(exit), &ctx.break_patches);
        assert(nests(opened, self@));
        proof {
            scope_nests(old(self)@, self@);
        }
        self.pop_scope();
        Ok(())
    }

    #[verifier::rlimit(60)]
    fn compile_switch(
        &mut self,
        c: Cx,
        subject: &Expr,
        cases: &Vec<SwitchCase>,
        fin: &Vec<&Vec<Stmt>>,
    ) -> (r: Result<(), CodegenError>)
        ensures
            done_as(
                r,
                final(self)@,
                switch_code(c@, old(self)@, *subject, cases@, blocks(fin@)),
            ),
            grows(old(self)@, final(self)@),
            r is Ok ==> nests(old(self)@, final(self)@),
        decreases
            c@.level,
            expr_size(*subject) + cases_size(cases@) + fin_size(blocks(fin@)),
            3nat,
            0nat,
    {
        proof {
            expr_parts(*subject);
        }
        let ty = self.compile_expr(c, subject)?;
        let local: u16 = self.declare_scratch_local(ty.copy());
        self.emit_store(local);
        let (jumps, default) = self.compile_dispatch(c, local, &ty, cases)?;
        let no_match: usize = self.branch(Opcode::Goto, 0);
        let ghost outside = self@;
        assert(nests(old(self)@, outside));
        self.enter_loop(fin.len(), true);
        let starts = self.compile_bodies(c, cases, fin)?;
        let end: usize = self.pc();
        proof {
            loop_nests(outside, new_loop(fin@.len() as int, true), self@);
        }
        let ctx = self.leave_loop();
        assert(nests(old(self)@, self@));
        self.patch_cases(&jumps, &starts);
        let target: usize = match default {
            Some(i) => starts[i],
            None => end,
        };
        self.patch_branch_to(no_match, target);
        self.patch_all(&ctx.break_patches, end);
        Ok(())
    }

    fn compile_dispatch(
        &mut self,
        c: Cx,
        subject: u16,
        ty: &ExprTy,
        cases: &Vec<SwitchCase>,
    ) -> (r: Result<(Vec<(usize, usize)>, Option<usize>), CodegenError>)
        ensures
            ({
                let want = dispatch_code(
                    c@,
                    old(self)@,
                    subject,
                    ty@,
                    cases@,
                    0,
                    Seq::empty(),
                    None,
                );
                match r {
                    Ok((jumps, default)) => want == Result::<
                        (State, Seq<(int, int)>, Option<int>),
                        Seq<char>,
                    >::Ok((final(self)@, jump_pairs(jumps@), opt_pos(default))) && (forall|j: int|
                        0 <= j < jumps@.len() ==> (#[trigger] jumps@[j]).0 < cases@.len()) && (
                    default matches Some(d) ==> d < cases@.len()),
                    Err(e) => want == Result::<
                        (State, Seq<(int, int)>, Option<int>),
                        Seq<char>,
                    >::Err(e@),
                }
            }),
            grows(old(self)@, final(self)@),
            r is Ok ==> nests(old(self)@, final(self)@),
        decreases c@.level, cases_size(cases@), 1nat, cases@.len(),
    {
        let ghost whole = dispatch_code(
            c@,
            self@,
            subject,
            ty@,
            cases@,
            0,
            Seq::empty(),
            None,
        );
        let mut jumps: Vec<(usize, usize)> = Vec::new();
        let mut default: Option<usize> = None;
        let mut i: usize = 0;
        assert(jump_pairs(jumps@) =~= Seq::empty());
        while i < cases.len()
            invariant
                grows(old(self)@, self@),
                nests(old(self)@, self@),
                i <= cases@.len(),
                whole == dispatch_code(
                    c@,
                    old(self)@,
                    subject,
                    ty@,
                    cases@,
                    0,
                    Seq::empty(),
                    None,
                ),
                whole == dispatch_code(
                    c@,
                    self@,
                    subject,
                    ty@,
                    cases@,
                    i as int,
                    jump_pairs(jumps@),
                    opt_pos(default),
                ),
                forall|j: int| 0 <= j < jumps@.len() ==> (#[trigger] jumps@[j]).0 < i,
                default matches Some(d) ==> d < i,
            decreases cases@.len() - i,
        {
            proof {
                case_smaller(cases@, i as int);
            }
            let ghost before = jump_pairs(jumps@);
            match &cases[i].value {
                Some(value) => {
                    self.emit_load(subject);
                    let value_ty = self.compile_expr(c, value)?;
                    self.coerce_value(&value_ty, ty, "switch case")?;
                    self.op(Opcode::CmpEq, -1);
                    let jump: usize = self.branch(Opcode::IfTrue, -1);
                    jumps.push((i, jump));
                    assert(jump_pairs(jumps@) =~= before.push((i as int, jump as int)));
                },
                None => {
                    default = Some(i);
                },
            }
            i = i + 1;
        }
        Ok((jumps, default))
    }

    fn compile_bodies(&mut self, c: Cx, cases: &Vec<SwitchCase>, fin: &Vec<&Vec<Stmt>>) -> (r:
        Result<Vec<usize>, CodegenError>)
        ensures
            ({
                let want = bodies_code(
                    c@,
                    old(self)@,
                    cases@,
                    blocks(fin@),
                    0,
                    Seq::empty(),
                );
                match r {
                    Ok(starts) => want == Result::<(State, Seq<int>), Seq<char>>::Ok(
                        (final(self)@, positions(starts@)),
                    ) && starts@.len() == cases@.len(),
                    Err(e) => want == Result::<(State, Seq<int>), Seq<char>>::Err(e@),
                }
            }),
            grows(old(self)@, final(self)@),
            r is Ok ==> nests(old(self)@, final(self)@),
        decreases
            c@.level,
            cases_size(cases@) + fin_size(blocks(fin@)),
            1nat,
            cases@.len(),
    {
        let ghost bs = blocks(fin@);
        let ghost whole = bodies_code(c@, self@, cases@, bs, 0, Seq::empty());
        let mut starts: Vec<usize> = Vec::new();
        let mut i: usize = 0;
        assert(positions(starts@) =~= Seq::empty());
        while i < cases.len()
            invariant
                grows(old(self)@, self@),
                nests(old(self)@, self@),
                i <= cases@.len(),
                bs == blocks(fin@),
                starts@.len() == i,
                whole == bodies_code(c@, old(self)@, cases@, bs, 0, Seq::empty()),
                whole == bodies_code(c@, self@, cases@, bs, i as int, positions(starts@)),
            decreases cases@.len() - i,
        {
            proof {
                case_smaller(cases@, i as int);
            }
            let ghost before = positions(starts@);
            let start: usize = self.pc();
            self.compile_block(c, &cases[i].body, fin)?;
            starts.push(start);
            assert(positions(starts@) =~= before.push(start as int));
            i = i + 1;
        }
        Ok(starts)
    }

    fn patch_cases(&mut self, jumps: &Vec<(usize, usize)>, starts: &Vec<usize>)
        requires
            forall|j: int| 0 <= j < jumps@.len() ==> (#[trigger] jumps@[j]).0 < starts@.len(),
        ensures
            final(self)@ == aimed_cases(
                old(self)@,
                jump_pairs(jumps@),
                positions(starts@),
                jumps@.len() as int,
            ),
            grows(old(self)@, final(self)@),
            nests(old(self)@, final(self)@),
    {
        let ghost js = jump_pairs(jumps@);
        let ghost ps = positions(starts@);
        let ghost s0 = self@;
        let mut i: usize = 0;
        while i < jumps.len()
            invariant
                grows(old(self)@, self@),
                nests(old(self)@, self@),
                i <= jumps@.len(),
                s0 == old(self)@,
                js == jump_pairs(jumps@),
                ps == positions(starts@),
                forall|j: int| 0 <= j < jumps@.len() ==> (#[trigger] jumps@[j]).0 < starts@.len(),
                self@ == aimed_cases(s0, js, ps, i as int),
            decreases jumps@.len() - i,
        {
            let (case, pc) = jumps[i];
            assert(js[i as int] == (case as int, pc as int));
            assert(jumps@[i as int].0 < starts@.len());
            self.patch_branch_to(pc, starts[case]);
            i = i + 1;
        }
    }

    fn compile_try(
        &mut self,
        c: Cx,
        body: &Vec<Stmt>,
        catches: &Vec<CatchClause>,
        finally: &Option<Vec<Stmt>>,
        fin: &Vec<&Vec<Stmt>>,
    ) -> (r: Result<(), CodegenError>)
        ensures
            done_as(
                r,
                final(self)@,
                try_code(c@, old(self)@, body@, catches@, *finally, blocks(fin@)),
            ),
            grows(old(self)@, final(self)@),
            r is Ok ==> nests(old(self)@, final(self)@),
        decreases
            c@.level,
            block_size(body@) + catches_size(catches@) + opt_block_size(*finally) + fin_size(
                blocks(fin@),
            ),
            3nat,
            0nat,
    {
        let ghost bs = blocks(fin@);
        let mut inner = outer_blocks(fin, fin.len());
        assert(blocks(inner@) =~= bs);
        if let Some(block) = finally {
            proof {
                fin_push(bs, block@);
            }
            let ghost before = blocks(inner@);
            inner.push(block);
            assert(blocks(inner@) =~= before.push(block@));
        }
        assert(blocks(inner@) == inner_fin(bs, *finally));
        let mut tries = c.outer_tries(c.tries.len());
        assert(typings_views(tries@) =~= c@.tries);
        if finally.is_some() {
            let ghost before = typings_views(tries@);
            tries.push(c.typings);
            assert(typings_views(tries@) =~= before.push(c@.typings));
        }
        let inside = Cx { unit: c.unit, level: c.level, typings: c.typings, tries: &tries };
        assert(inside@ == if finally is Some { c@.guarded() } else { c@ });
        let start: usize = self.pc();
        self.compile_block(inside, body, &inner)?;
        let end: usize = self.pc();
        let ghost after_body = self@;
        let to_end: usize = self.branch(Opcode::Goto, 0);
        let ghost after_jump = self@;
        let (jumps, handlers) = self.compile_catches(inside, catches, &inner, to_end)?;
        let catches_end: usize = self.pc();
        let ghost after_catches = self@;
        proof {
            grows_longer(old(self)@, after_body);
            grows_longer(after_body, after_jump);
            grows_longer(after_jump, after_catches);
        }
        match finally {
            Some(block) => {
                let exc: u16 = self.declare_scratch_local(ExprTy::Object(owned("Exception")));
                self.emit_store(exc);
                self.compile_block(c, block, fin)?;
                self.emit_load(exc);
                self.op(Opcode::Throw, -1);
                let normal: usize = self.pc();
                self.compile_block(c, block, fin)?;
                self.patch_all(&jumps, normal);
                proof {
                    grows_longer(after_catches, self@);
                }
                self.protect_all(&handlers, start, end);
                proof {
                    grows_longer(after_catches, self@);
                }
                self.protect(
                    ExceptionTableEntry {
                        start_pc: #[verifier::truncate] (start as u16),
                        end_pc: #[verifier::truncate] (catches_end as u16),
                        handler_pc: #[verifier::truncate] (catches_end as u16),
                        catch_type: 0,
                    },
                );
            },
            None => {
                self.patch_all(&jumps, catches_end);
                proof {
                    grows_longer(after_catches, self@);
                }
                self.protect_all(&handlers, start, end);
            },
        }
        Ok(())
    }

    fn compile_catches(
        &mut self,
        c: Cx,
        catches: &Vec<CatchClause>,
        fin: &Vec<&Vec<Stmt>>,
        first_jump: usize,
    ) -> (r: Result<(Vec<usize>, Vec<(usize, u16)>), CodegenError>)
        ensures
            ({
                let want = catches_code(
                    c@,
                    old(self)@,
                    catches@,
                    blocks(fin@),
                    0,
                    seq![first_jump as int],
                    Seq::empty(),
                );
                match r {
                    Ok((jumps, handlers)) => want == Result::<
                        (State, Seq<int>, Seq<(int, u16)>),
                        Seq<char>,
                    >::Ok((final(self)@, positions(jumps@), handler_pairs(handlers@))),
                    Err(e) => want == Result::<
                        (State, Seq<int>, Seq<(int, u16)>),
                        Seq<char>,
                    >::Err(e@),
                }
            }),
            grows(old(self)@, final(self)@),
            r is Ok ==> nests(old(self)@, final(self)@),
            r matches Ok((_, handlers)) ==> handlers_between(
                handlers@,
                old(self)@.pc(),
                final(self)@.pc(),
            ),
        decreases
            c@.level,
            catches_size(catches@) + fin_size(blocks(fin@)),
            1nat,
            catches@.len(),
    {
        let ghost bs = blocks(fin@);
        let ghost first = seq![first_jump as int];
        let ghost whole = catches_code(c@, self@, catches@, bs, 0, first, Seq::empty());
        let mut jumps: Vec<usize> = Vec::new();
        jumps.push(first_jump);
        let mut handlers: Vec<(usize, u16)> = Vec::new();
        let mut i: usize = 0;
        assert(positions(jumps@) =~= first);
        assert(handler_pairs(handlers@) =~= Seq::empty());
        while i < catches.len()
            invariant
                grows(old(self)@, self@),
                nests(old(self)@, self@),
                handlers_between(handlers@, old(self)@.pc(), self@.pc()),
                i <= catches@.len(),
                bs == blocks(fin@),
                first == seq![first_jump as int],
                whole == catches_code(c@, old(self)@, catches@, bs, 0, first, Seq::empty()),
                whole == catches_code(
                    c@,
                    self@,
                    catches@,
                    bs,
                    i as int,
                    positions(jumps@),
                    handler_pairs(handlers@),
                ),
            decreases catches@.len() - i,
        {
            proof {
                catch_smaller(catches@, i as int);
            }
            let ghost js = positions(jumps@);
            let ghost hs = handler_pairs(handlers@);
            let clause = &catches[i];
            let handler: usize = self.pc();
            let ghost before = self@;
            let fqcn = resolve_class_name(c, clause.ty.as_str());
            let class: u16 = self.add_class(fqcn.as_str());
            let ghost outside = self@;
            self.push_scope();
            let local: u16 = self.declare_local(clause.var.clone(), ExprTy::Object(fqcn.clone()));
            self.emit_store(local);
            let mut typings = c.typings.copy();
            typings.tell(clause.var.as_str(), Some(Type::Named(fqcn)));
            self.compile_stmts(c.with_typings(&typings), &clause.body, fin)?;
            proof {
                scope_nests(outside, self@);
            }
            self.pop_scope();
            let jump: usize = self.branch(Opcode::Goto, 0);
            jumps.push(jump);
            handlers.push((handler, class));
            assert(positions(jumps@) =~= js.push(jump as int));
            assert(handler_pairs(handlers@) =~= hs.push((handler as int, class)));
            proof {
                grows_longer(old(self)@, before);
                grows_longer(before, self@);
            }
            i = i + 1;
        }
        Ok((jumps, handlers))
    }

    fn protect_all(&mut self, handlers: &Vec<(usize, u16)>, start: usize, end: usize)
        requires
            start <= end,
            handlers_between(handlers@, end as int, old(self)@.pc()),
        ensures
            final(self)@ == guarded(
                old(self)@,
                handler_pairs(handlers@),
                start as int,
                end as int,
                handlers@.len() as int,
            ),
            grows(old(self)@, final(self)@),
            nests(old(self)@, final(self)@),
    {
        let ghost hs = handler_pairs(handlers@);
        let ghost s0 = self@;
        let mut i: usize = 0;
        while i < handlers.len()
            invariant
                grows(old(self)@, self@),
                nests(old(self)@, self@),
                i <= handlers@.len(),
                s0 == old(self)@,
                hs == handler_pairs(handlers@),
                start <= end,
                handlers_between(handlers@, end as int, s0.pc()),
                self@ == guarded(s0, hs, start as int, end as int, i as int),
            decreases handlers@.len() - i,
        {
            let (handler, class) = handlers[i];
            assert(hs[i as int] == (handler as int, class));
            proof {
                grows_longer(s0, self@);
            }
            self.protect(
                ExceptionTableEntry {
                    start_pc: #[verifier::truncate] (start as u16),
                    end_pc: #[verifier::truncate] (end as u16),
                    handler_pc: #[verifier::truncate] (handler as u16),
                    catch_type: class,
                },
            );
            i = i + 1;
        }
    }
}

pub open spec fn jump_pairs(v: Seq<(usize, usize)>) -> Seq<(int, int)> {
    v.map_values(|p: (usize, usize)| (p.0 as int, p.1 as int))
}

pub open spec fn handler_pairs(v: Seq<(usize, u16)>) -> Seq<(int, u16)> {
    v.map_values(|p: (usize, u16)| (p.0 as int, p.1))
}

/// Whether all handlers begin in a range of the code.
pub open spec fn handlers_between(v: Seq<(usize, u16)>, from: int, to: int) -> bool {
    forall|i: int| 0 <= i < v.len() ==> from <= (#[trigger] v[i]).0 <= to
}

pub open spec fn opt_pos(o: Option<usize>) -> Option<int> {
    match o {
        Some(i) => Some(i as int),
        None => None,
    }
}

} // verus!
