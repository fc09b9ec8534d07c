//! Compilation of expressions.

use crate::native_generics;
use crate::ast::{
    clone_types, plain_array_of, type_views, Arg, BinOp, ClosureBody, Expr, LValue, MatchArm, Param,
    Stmt, Type, TypeView, UnOp,
};
use crate::bytecode::method_flags;
use crate::bytecode::constant_pool::ConstantPool;
use crate::bytecode::module::{method_views, HashAlgo, MethodDescriptor, Module, VERSION};
use crate::bytecode::opcode::Opcode;
use crate::class_table::{
    find_ctor_overload, find_method_overload, find_operator_method, opt_expr, param_names_of,
    param_types_of,
};
use crate::codegen::args::{
    actual_views, given_within, plan_views, require_positional_args, resolve_positional_args,
    Actual, ActualView, RefPlan,
};
use crate::codegen::closure::boxed_captures;
use crate::codegen::emitter::{
    module_views, positions, sig_views, typings_views, Cx, Emitter, MethodSig, State, Unit,
};
use crate::codegen::error::CodegenError;
use crate::codegen::expr_ty::{
    calling_convention_params, expr_ty, expr_ty_of, expr_ty_to_type, expr_ty_views, expr_tys,
    expr_tys_of, expr_tys_to_types, show, ExprTy, ExprTyView,
};
use crate::codegen::growth::{
    closures_in_order, empty_distinct, extended_trans, grows, pool_grows,
};
use crate::codegen::nesting::nests;
use crate::codegen::lowered::{
    after_first, arg_values_code, args_code, arm_test_code, arms_code, array_init_code,
    array_level_code, array_method_code, array_method_type, assign_code, backing_type, binary_code,
    binary_op, bool_code, call_code, callback_method, cast_code, closure_body_code, closure_code,
    closure_cx, closure_module, closure_return, coalesce_code, command_like, construct_code,
    dropped_code, elements_code, elvis_code, enum_value_code, expr_code, field_access_code,
    field_assign_code, index_assign_code, index_code, instanceof_code, invoke_code,
    invoke_method_code, leading_sizes, local_assign_code, match_code, member_code, method_call_code,
    new_array_code, new_code, new_target, no_constructor, no_refs, object_call_code, print_code,
    run_code, short_circuit_code, slice_code, static_call_code, stdlib_call_code, stringed,
    super_call_code, super_method_code, ternary_code, this_call_code, unary_code, unary_op,
    unknown_method, value_call_code, Passed,
};
use crate::codegen::ops::{
    arithmetic_opcode, delta_of_call, done_as, is_numeric_ty, lookup_field, resolve_class_name,
    resolve_ident, superclass_fqcn, typed_as, undefined_variable, unsupported, IdentRef, Typed,
};
use crate::codegen::overload::{own_static_sigs, pick_static};
use crate::codegen::peek::{is_concatenation, member_ty, operator_overload, peek_type};
use crate::codegen::stdlib::{
    ctor_param_types, enum_const_value, instance_signature, is_printlike, is_stdlib_class,
    native_static, process_result, signature,
};
use crate::codegen::stmt::blocks;
use crate::codegen::type_desc::{method_descriptor, type_descriptor};
use crate::codegen::vars::{
    add_capture_fields, capture_views, captured_table, find_captures, find_compound_overload,
    find_enum_case, find_static_field, is_enum_class,
};
use crate::names::opt_view;
use crate::native::{types0, types1};
use crate::probe::{overload_arg_tys, Typings};
use crate::resolve::{dotted_path, resolve_type};
use crate::size::{
    arg_smaller, args_size, arm_smaller, arms_size, body_size, dim_smaller, dims_size, expr_parts,
    expr_size, exprs_size, item_smaller, lvalue_size, opt_size,
};
use crate::text::{cat2, cat3, cat4, cat5, cat6, cat7, decimal, head, owned, str_eq, texts};
use vstd::prelude::*;

verus! {

broadcast use {crate::codegen::growth::group_growth, crate::codegen::nesting::group_nesting};

/// As many parameters that are passed by value.
pub fn all_by_value(n: usize) -> (r: Vec<bool>)
    ensures
        r@ == no_refs(n as nat),
{
    let mut out: Vec<bool> = Vec::new();
    let mut i: usize = 0;
    while i < n
        invariant
            i <= n,
            out@ =~= no_refs(i as nat),
        decreases n - i,
    {
        out.push(false);
        i = i + 1;
    }
    out
}

fn leading_count(dims: &Vec<Option<Expr>>) -> (r: usize)
    ensures
        r == leading_sizes(dims@, 0),
        r <= dims@.len(),
{
    let mut i: usize = 0;
    while i < dims.len() && dims[i].is_some()
        invariant
            i <= dims@.len(),
            leading_sizes(dims@, 0) == i + leading_sizes(dims@, i as int),
        decreases dims@.len() - i,
    {
        i = i + 1;
    }
    i
}

fn backing_ty(c: Cx, fqcn: &str) -> (r: ExprTy)
    ensures
        r@ == backing_type(c@, fqcn@),
{
    match c.unit.classes.get(fqcn) {
        Some(info) => if info.fields.len() > 0 {
            assert(info@.fields[0] == info.fields@[0]@);
            expr_ty_of(&info.fields[0].ty)
        } else {
            ExprTy::Int
        },
        None => ExprTy::Int,
    }
}

fn array_method_ty(elem: &ExprTy, name: &str, closure: &ExprTy) -> (r: Result<ExprTy, CodegenError>)
    ensures
        match r {
            Ok(t) => array_method_type(elem@, name@, closure@) == Result::<
                ExprTyView,
                Seq<char>,
            >::Ok(t@),
            Err(e) => array_method_type(elem@, name@, closure@) == Result::<
                ExprTyView,
                Seq<char>,
            >::Err(e@),
        },
{
    reveal(array_method_type);
    if str_eq(name, "map") {
        match closure {
            ExprTy::Closure { return_ty, .. } => Ok(ExprTy::Array(Box::new(return_ty.copy()))),
            _ => Err(
                CodegenError::Unsupported(cat3("'", name, "' expects a closure argument")),
            ),
        }
    } else if str_eq(name, "filter") {
        Ok(ExprTy::Array(Box::new(elem.copy())))
    } else if str_eq(name, "find") {
        Ok(elem.copy())
    } else {
        Ok(ExprTy::Void)
    }
}

fn no_constructor_error(fqcn: &str, argc: usize, purpose: &str) -> (r: CodegenError)
    ensures
        r@ == no_constructor(fqcn@, argc as nat, purpose@),
{
    CodegenError::Unsupported(
        cat6(
            "no constructor of '",
            fqcn,
            "' with ",
            decimal(argc as u64).as_str(),
            " argument(s)",
            purpose,
        ),
    )
}

fn unknown_method_error(name: &str, on: &str, argc: usize) -> (r: CodegenError)
    ensures
        r@ == unknown_method(name@, on@, argc as nat),
{
    CodegenError::Unsupported(
        cat7(
            "unknown method '",
            name,
            "' on ",
            on,
            " with ",
            decimal(argc as u64).as_str(),
            " argument(s)",
        ),
    )
}

fn takes_callback(name: &str) -> (r: bool)
    ensures
        r == callback_method(name@),
{
    reveal(callback_method);
    str_eq(name, "map") || str_eq(name, "filter") || str_eq(name, "forEach") || str_eq(
        name,
        "sort",
    ) || str_eq(name, "find")
}

fn is_command_like(ty: &ExprTy) -> (r: bool)
    ensures
        r == command_like(ty@),
{
    match ty {
        ExprTy::StringT => true,
        ExprTy::Array(elem) => elem.same(&ExprTy::StringT),
        _ => false,
    }
}

fn declared_return(c: Cx, return_type: &Option<Type>, found: ExprTy) -> (r: ExprTy)
    ensures
        r@ == closure_return(c@, *return_type, found@),
{
    match return_type {
        Some(t) => expr_ty_of(&resolve_type(t, c.unit.imports)),
        None => found,
    }
}

/// The constructor that `new` calls.
struct NewTarget<'a> {
    params: Vec<Type>,
    is_ref: Vec<bool>,
    acts: Vec<Actual<'a>>,
}

fn find_new_target<'u>(c: Cx<'u>, em: &Emitter, fqcn: &str, args: &Vec<Arg>) -> (r: Result<
    NewTarget<'u>,
    CodegenError,
>)
    ensures
        match r {
            Ok(t) => new_target(c@, em@, fqcn@, args@) == Result::<
                (Seq<TypeView>, Seq<bool>, Seq<ActualView>),
                Seq<char>,
            >::Ok((type_views(t.params@), t.is_ref@, actual_views(t.acts@)))
                && given_within(actual_views(t.acts@), args@.len() as int),
            Err(e) => new_target(c@, em@, fqcn@, args@) == Result::<
                (Seq<TypeView>, Seq<bool>, Seq<ActualView>),
                Seq<char>,
            >::Err(e@),
        },
{
    let native = match native_generics::ctor_param_types(c.unit.natives, fqcn, args.len()) {
        Some(ps) => Some(ps),
        None => ctor_param_types(fqcn, args.len()),
    };
    match native {
        Some(params) => {
            let acts = require_positional_args(args)?;
            let is_ref = all_by_value(params.len());
            Ok(NewTarget { params, is_ref, acts })
        },
        None => match find_ctor_overload(
            c.unit.classes,
            fqcn,
            args.len(),
            &overload_arg_tys(&c.site(), c.typings, args),
        ) {
            None => {
                proof {
                    reveal_strlit("");
                    assert(""@ =~= Seq::empty());
                }
                Err(no_constructor_error(fqcn, args.len(), ""))
            },
            Some(ctor) => Ok(
                NewTarget {
                    params: clone_types(&ctor.params),
                    is_ref: copy_bools(&ctor.is_ref),
                    acts: resolve_positional_args(&ctor.param_names, &ctor.defaults, args),
                },
            ),
        },
    }
}

fn copy_bools(v: &Vec<bool>) -> (r: Vec<bool>)
    ensures
        r@ == v@,
{
    let mut out: Vec<bool> = Vec::new();
    let mut i: usize = 0;
    while i < v.len()
        invariant
            i <= v@.len(),
            out@ =~= v@.take(i as int),
        decreases v@.len() - i,
    {
        out.push(v[i]);
        i = i + 1;
    }
    assert(v@.take(i as int) =~= v@);
    out
}

impl Emitter {
    pub fn compile_expr(&mut self, c: Cx, expr: &Expr) -> (r: Result<ExprTy, CodegenError>)
        ensures
            typed_as(r, final(self)@, expr_code(c@, old(self)@, *expr)),
            grows(old(self)@, final(self)@),
            r is Ok ==> nests(old(self)@, final(self)@),
        decreases c@.level, expr_size(*expr), 0nat, 0nat,
    {
        proof {
            expr_parts(*expr);
        }
        match expr {
            Expr::IntLit(v) => {
                self.emit_int_const(*v);
                Ok(ExprTy::Int)
            },
            Expr::FloatLit(bits) => {
                self.emit_float_const(*bits);
                Ok(ExprTy::Float)
            },
            Expr::BoolLit(v) => {
                self.op(
                    if *v {
                        Opcode::ConstTrue
                    } else {
                        Opcode::ConstFalse
                    },
                    1,
                );
                Ok(ExprTy::Bool)
            },
            Expr::StringLit(text) => {
                let i: u16 = self.add_utf8(text.as_str());
                self.op_u16(Opcode::Ldc, i, 1);
                Ok(ExprTy::StringT)
            },
            Expr::NullLit => {
                self.op(Opcode::ConstNull, 1);
                Ok(ExprTy::Null)
            },
            Expr::This => {
                self.emit_load(0);
                Ok(ExprTy::Object(c.unit.this_fqcn.clone()))
            },
            Expr::Super => {
                let parent = superclass_fqcn(c)?;
                self.emit_load(0);
                Ok(ExprTy::Object(parent))
            },
            Expr::Ident(name) => self.compile_ident(c, name.as_str()),
            Expr::Assign(target, value) => self.compile_assign(c, target, value),
            Expr::Call(name, args) => self.compile_call(c, name.as_str(), args),
            Expr::New(name, _, args) => self.compile_new(c, name.as_str(), args),
            Expr::NewArray(elem, dims) => self.compile_new_array(c, elem, dims),
            Expr::NewArrayInit(elem, elements) => self.compile_new_array_init(c, elem, elements),
            Expr::FieldAccess(target, name) => self.compile_field_access(c, target, name.as_str()),
            Expr::MethodCall(target, name, args) => self.compile_method_call(
                c,
                target,
                name.as_str(),
                args,
            ),
            Expr::Index(target, index) => self.compile_index(c, target, index),
            Expr::InstanceOf(target, class) => self.compile_instanceof(c, target, class.as_str()),
            Expr::Cast(ty, inner) => self.compile_cast(c, ty, inner),
            Expr::PostIncr(name) => self.compile_incr(c, name.as_str(), 1),
            Expr::PostDecr(name) => self.compile_incr(c, name.as_str(), -1),
            Expr::Unary(op, inner) => self.compile_unary(c, *op, inner),
            Expr::Binary(op, lhs, rhs) => self.compile_binary(c, *op, lhs, rhs),
            Expr::Match(subject, arms) => self.compile_match(c, subject, arms),
            Expr::Ternary(cond, then_e, else_e) => self.compile_ternary(c, cond, then_e, else_e),
            Expr::Coalesce(lhs, rhs) => self.compile_coalesce(c, lhs, rhs),
            Expr::Elvis(lhs, rhs) => self.compile_elvis(c, lhs, rhs),
            Expr::Closure { params, return_type, body, .. } => self.compile_closure(
                c,
                params,
                return_type,
                body,
            ),
        }
    }

    pub fn compile_expr_bool(&mut self, c: Cx, expr: &Expr) -> (r: Result<(), CodegenError>)
        ensures
            done_as(r, final(self)@, bool_code(c@, old(self)@, *expr)),
            grows(old(self)@, final(self)@),
            r is Ok ==> nests(old(self)@, final(self)@),
        decreases c@.level, expr_size(*expr), 1nat, 0nat,
    {
        let ty = self.compile_expr(c, expr)?;
        if matches!(ty, ExprTy::Bool) {
            Ok(())
        } else {
            Err(
                CodegenError::Unsupported(
                    cat2("expected bool condition, got ", show(&ty).as_str()),
                ),
            )
        }
    }

    /// Compiles an expression and drops its value.
    pub fn compile_expr_stmt(&mut self, c: Cx, expr: &Expr) -> (r: Result<(), CodegenError>)
        ensures
            done_as(r, final(self)@, dropped_code(c@, old(self)@, *expr)),
            grows(old(self)@, final(self)@),
            r is Ok ==> nests(old(self)@, final(self)@),
        decreases c@.level, expr_size(*expr), 1nat, 0nat,
    {
        let ty = self.compile_expr(c, expr)?;
        if !ty.is_void() {
            self.op(Opcode::Pop, -1);
        }
        Ok(())
    }

    fn compile_closure_body(
        &mut self,
        c: Cx,
        return_type: &Option<Type>,
        body: &ClosureBody,
    ) -> (r: Result<ExprTy, CodegenError>)
        ensures
            typed_as(r, final(self)@, closure_body_code(c@, old(self)@, *return_type, *body)),
            grows(old(self)@, final(self)@),
            r is Ok ==> nests(old(self)@, final(self)@),
        decreases c@.level, body_size(*body), 1nat, 0nat,
    {
        match body {
            ClosureBody::Block(block) => {
                let none: Vec<&Vec<Stmt>> = Vec::new();
                assert(blocks(none@) =~= Seq::empty());
                self.compile_stmts(c, block, &none)?;
                let found = match &self.inferred_return_ty {
                    Some(t) => t.copy(),
                    None => ExprTy::Void,
                };
                let ret = declared_return(c, return_type, found);
                if ret.is_void() {
                    self.op(Opcode::Return, 0);
                }
                Ok(ret)
            },
            ClosureBody::Expr(e) => {
                let ty = self.compile_expr(c, e)?;
                self.op(Opcode::ReturnValue, 0);
                Ok(declared_return(c, return_type, ty))
            },
        }
    }

    #[verifier::rlimit(40)]
    fn compile_closure(
        &mut self,
        c: Cx,
        params: &Vec<Param>,
        return_type: &Option<Type>,
        body: &ClosureBody,
    ) -> (r: Result<ExprTy, CodegenError>)
        ensures
            typed_as(
                r,
                final(self)@,
                closure_code(c@, old(self)@, params@, *return_type, *body),
            ),
            grows(old(self)@, final(self)@),
            r is Ok ==> nests(old(self)@, final(self)@),
        decreases c@.level, body_size(*body), 2nat, 0nat,
    {
        let caps = find_captures(c, self, params, body);
        let fqcn = cat3(
            c.unit.closure_name_prefix.as_str(),
            "$closure",
            decimal(self.closure_counter as u64).as_str(),
        );
        self.count_closure();
        let tys = expr_tys_of(&param_types_of(params, c.unit.imports));
        let names = param_names_of(params);
        let refs = all_by_value(names.len());
        let mut cp = ConstantPool::new();
        let this_class: u16 = cp.add_class(fqcn.as_str());
        let unit = Unit {
            classes: c.unit.classes,
            imports: c.unit.imports,
            static_sigs: c.unit.static_sigs,
            natives: c.unit.natives,
            this_class,
            this_fqcn: fqcn.clone(),
            captured_fields: captured_table(&caps),
            boxed_captures: boxed_captures(body),
            closure_name_prefix: fqcn.clone(),
            home: c.unit.home.clone(),
        };
        let mut typings = c.typings.copy();
        typings.enter(&c.site(), params);
        let tries: Vec<&Typings> = Vec::new();
        assert(typings_views(tries@) =~= Seq::empty());
        let inner_c = Cx { unit: &unit, level: c.level, typings: &typings, tries: &tries };
        let ghost cs = capture_views(caps@);
        let ghost inner_view = closure_cx(c@, this_class, fqcn@, cs, params@, *body);
        assert(inner_c@ == inner_view);
        let ghost pool_start = cp@;
        proof {
            empty_distinct();
            pool_grows(Seq::empty(), fqcn@);
        }
        let mut inner = Emitter::new(cp);
        let ghost nothing = inner@;
        inner.push_scope();
        inner.declare_local(owned("this"), ExprTy::Object(fqcn.clone()));
        inner.declare_params(&names, &tys, &refs);
        assert(grows(nothing, inner@));
        inner.rebox_params(&unit.boxed_captures, &names, &tys, &refs);
        let ret = inner.compile_closure_body(inner_c, return_type, body)?;
        assert(grows(nothing, inner@));
        inner.pop_scope();
        let ghost end = inner@;
        assert(grows(nothing, end));
        let max_stack: u16 = inner.max_stack();
        let mut pool = inner.cp;
        let name_index: u16 = pool.add_utf8("invoke");
        let ghost pool_named = pool@;
        let signature = method_descriptor(&expr_tys_to_types(&tys), &expr_ty_to_type(&ret));
        let descriptor_index: u16 = pool.add_type_desc(signature.as_str());
        let ghost pool_signed = pool@;
        let fields = add_capture_fields(&mut pool, &caps);
        proof {
            pool_grows(end.cp, "invoke"@);
            pool_grows(pool_named, signature@);
            extended_trans(end.cp, pool_named, pool_signed);
            extended_trans(end.cp, pool_signed, pool@);
        }
        let invoke = MethodDescriptor {
            flags: method_flags::PUBLIC,
            name_index,
            descriptor_index,
            throws_types: Vec::new(),
            max_locals: inner.max_locals,
            max_stack,
            code: inner.code,
            exception_table: inner.exception_table,
            line_table: inner.line_table,
        };
        let ghost invoke_view = invoke@;
        let mut methods: Vec<MethodDescriptor> = Vec::new();
        methods.push(invoke);
        assert(method_views(methods@) =~= seq![invoke_view]);
        let module = Module {
            version: VERSION,
            constant_pool: pool,
            this_class,
            class_flags: 0,
            super_class: 0,
            interfaces: Vec::new(),
            fields,
            methods,
            hash_algo: HashAlgo::Sha256,
        };
        assert(module@ == closure_module(end, this_class, cs, expr_ty_views(tys@), ret@));
        let ghost module_view = module@;
        let mut modules: Vec<Module> = Vec::new();
        modules.push(module);
        assert(module_views(modules@) =~= seq![module_view]);
        let mut nested = inner.closures;
        let ghost first = module_views(modules@);
        let ghost rest = module_views(nested@);
        modules.append(&mut nested);
        assert(module_views(modules@) =~= first + rest);
        proof {
            reveal(State::pop_scope);
            closures_in_order(pool_start, end, module_view, rest);
        }
        self.add_closures(modules);
        self.emit_new(fqcn.as_str());
        self.emit_captures(c, &caps);
        let throws: Vec<String> = Vec::new();
        assert(texts(throws@) =~= Seq::<Seq<char>>::empty());
        Ok(ExprTy::Closure { params: tys, return_ty: Box::new(ret), throws, fqcn })
    }

    fn compile_closure_invoke(
        &mut self,
        c: Cx,
        params: &Vec<ExprTy>,
        return_ty: &ExprTy,
        fqcn: &str,
        args: &Vec<Arg>,
    ) -> (r: Result<ExprTy, CodegenError>)
        ensures
            typed_as(
                r,
                final(self)@,
                invoke_code(
                    c@,
                    old(self)@,
                    expr_ty_views(params@),
                    return_ty@,
                    fqcn@,
                    args@,
                ),
            ),
            grows(old(self)@, final(self)@),
            r is Ok ==> nests(old(self)@, final(self)@),
        decreases c@.level, args_size(args@), 3nat, 0nat,
    {
        let acts = require_positional_args(args)?;
        let by_value: Vec<bool> = Vec::new();
        assert(by_value@ =~= Seq::empty());
        self.compile_call_args(c, args, &acts, params, &by_value, "closure call")?;
        let m: u16 = self.method_ref_of(
            fqcn,
            "invoke",
            method_descriptor(&expr_tys_to_types(params), &expr_ty_to_type(return_ty)).as_str(),
        );
        self.op_u16(
            Opcode::InvokeClosure,
            m,
            delta_of_call(return_ty.is_void(), acts.len(), true),
        );
        Ok(return_ty.copy())
    }

    fn compile_ternary(&mut self, c: Cx, cond: &Expr, then_e: &Expr, else_e: &Expr) -> (r: Result<
        ExprTy,
        CodegenError,
    >)
        ensures
            typed_as(r, final(self)@, ternary_code(c@, old(self)@, *cond, *then_e, *else_e)),
            grows(old(self)@, final(self)@),
            r is Ok ==> nests(old(self)@, final(self)@),
        decreases
            c@.level,
            expr_size(*cond) + expr_size(*then_e) + expr_size(*else_e),
            2nat,
            0nat,
    {
        proof {
            expr_parts(*cond);
            expr_parts(*then_e);
            expr_parts(*else_e);
        }
        self.compile_expr_bool(c, cond)?;
        let to_else: usize = self.branch(Opcode::IfFalse, -1);
        let then_ty = self.compile_expr(c, then_e)?;
        let to_end: usize = self.branch(Opcode::Goto, 0);
        self.patch_branch(to_else);
        let else_ty = self.compile_expr(c, else_e)?;
        self.coerce_value(&else_ty, &then_ty, "ternary branch")?;
        self.patch_branch(to_end);
        Ok(then_ty)
    }

    fn compile_coalesce(&mut self, c: Cx, lhs: &Expr, rhs: &Expr) -> (r: Result<
        ExprTy,
        CodegenError,
    >)
        ensures
            typed_as(r, final(self)@, coalesce_code(c@, old(self)@, *lhs, *rhs)),
            grows(old(self)@, final(self)@),
            r is Ok ==> nests(old(self)@, final(self)@),
        decreases c@.level, expr_size(*lhs) + expr_size(*rhs), 2nat, 0nat,
    {
        proof {
            expr_parts(*lhs);
            expr_parts(*rhs);
        }
        let ty = self.compile_expr(c, lhs)?;
        self.op(Opcode::Dup, 1);
        self.op(Opcode::IsNonNull, 0);
        let skip: usize = self.branch(Opcode::IfTrue, -1);
        self.op(Opcode::Pop, -1);
        let rhs_ty = self.compile_expr(c, rhs)?;
        self.coerce_value(&rhs_ty, &ty, "?? right operand")?;
        self.patch_branch(skip);
        Ok(ty)
    }

    fn compile_elvis(&mut self, c: Cx, lhs: &Expr, rhs: &Expr) -> (r: Result<ExprTy, CodegenError>)
        ensures
            typed_as(r, final(self)@, elvis_code(c@, old(self)@, *lhs, *rhs)),
            grows(old(self)@, final(self)@),
            r is Ok ==> nests(old(self)@, final(self)@),
        decreases c@.level, expr_size(*lhs) + expr_size(*rhs), 2nat, 0nat,
    {
        proof {
            expr_parts(*lhs);
            expr_parts(*rhs);
        }
        let ty = self.compile_expr(c, lhs)?;
        let falsy = self.emit_falsy_jumps(&ty);
        let skip: usize = self.branch(Opcode::Goto, 0);
        let here: usize = self.pc();
        self.patch_all(&falsy, here);
        self.op(Opcode::Pop, -1);
        let rhs_ty = self.compile_expr(c, rhs)?;
        self.coerce_value(&rhs_ty, &ty, "?: right operand")?;
        self.patch_branch(skip);
        Ok(ty)
    }

    fn compile_arm_test(&mut self, c: Cx, ty: &ExprTy, pattern: &Option<Expr>, last: bool) -> (r:
        Result<Option<usize>, CodegenError>)
        ensures
            ({
                let want = arm_test_code(c@, old(self)@, ty@, *pattern, last);
                match r {
                    Ok(Some(pc)) => want == Result::<(State, Option<int>), Seq<char>>::Ok(
                        (final(self)@, Some(pc as int)),
                    ),
                    Ok(None) => want == Result::<(State, Option<int>), Seq<char>>::Ok(
                        (final(self)@, None),
                    ),
                    Err(e) => want == Result::<(State, Option<int>), Seq<char>>::Err(e@),
                }
            }),
            grows(old(self)@, final(self)@),
            r is Ok ==> nests(old(self)@, final(self)@),
        decreases c@.level, opt_size(*pattern), 1nat, 0nat,
    {
        match pattern {
            Some(p) => if last {
                Ok(None)
            } else {
                self.op(Opcode::Dup, 1);
                let pattern_ty = self.compile_expr(c, p)?;
                self.coerce_value(&pattern_ty, ty, "match pattern")?;
                self.op(Opcode::CmpEq, -1);
                let next: usize = self.branch(Opcode::IfFalse, -1);
                Ok(Some(next))
            },
            None => Ok(None),
        }
    }

    fn compile_match(&mut self, c: Cx, subject: &Expr, arms: &Vec<MatchArm>) -> (r: Result<
        ExprTy,
        CodegenError,
    >)
        ensures
            typed_as(r, final(self)@, match_code(c@, old(self)@, *subject, arms@)),
            grows(old(self)@, final(self)@),
            r is Ok ==> nests(old(self)@, final(self)@),
        decreases c@.level, expr_size(*subject) + arms_size(arms@), 2nat, 0nat,
    {
        proof {
            expr_parts(*subject);
        }
        let ty = self.compile_expr(c, subject)?;
        let ghost whole = arms_code(c@, self@, ty@, arms@, 0, Seq::empty(), None);
        let mut jumps: Vec<usize> = Vec::new();
        let mut result: Option<ExprTy> = None;
        let mut i: usize = 0;
        assert(positions(jumps@) =~= Seq::empty());
        while i < arms.len()
            invariant
                grows(old(self)@, self@),
                nests(old(self)@, self@),
                i <= arms@.len(),
                whole == arms_code(
                    c@,
                    self@,
                    ty@,
                    arms@,
                    i as int,
                    positions(jumps@),
                    opt_view(result),
                ),
                match_code(c@, old(self)@, *subject, arms@) == (match whole {
                    Err(e) => Err(e),
                    Ok((s2, js, res)) => Typed::Ok(
                        (
                            s2.aim_all(js, s2.pc()),
                            match res {
                                Some(t) => t,
                                None => ExprTyView::Void,
                            },
                        ),
                    ),
                }),
            decreases arms@.len() - i,
        {
            proof {
                arm_smaller(arms@, i as int);
            }
            let ghost before = positions(jumps@);
            let next = self.compile_arm_test(c, &ty, &arms[i].pattern, i == arms.len() - 1)?;
            self.op(Opcode::Pop, -1);
            let value_ty = self.compile_expr(c, &arms[i].value)?;
            if let Some(expected) = &result {
                self.coerce_value(&value_ty, expected, "match arm")?;
            }
            let jump: usize = self.branch(Opcode::Goto, 0);
            jumps.push(jump);
            assert(positions(jumps@) =~= before.push(jump as int));
            if let Some(pc) = next {
                self.patch_branch(pc);
            }
            if result.is_none() {
                result = Some(value_ty);
            }
            i = i + 1;
        }
        let end: usize = self.pc();
        self.patch_all(&jumps, end);
        match result {
            Some(t) => Ok(t),
            None => Ok(ExprTy::Void),
        }
    }

    fn compile_assign(&mut self, c: Cx, target: &LValue, value: &Expr) -> (r: Result<
        ExprTy,
        CodegenError,
    >)
        ensures
            typed_as(r, final(self)@, assign_code(c@, old(self)@, *target, *value)),
            grows(old(self)@, final(self)@),
            r is Ok ==> nests(old(self)@, final(self)@),
        decreases c@.level, lvalue_size(*target) + expr_size(*value), 3nat, 0nat,
    {
        match target {
            LValue::Local(name) => self.compile_local_assign(c, name.as_str(), value),
            LValue::Field(object, name) => self.compile_field_assign(
                c,
                object,
                name.as_str(),
                value,
            ),
            LValue::Index(array, index) => self.compile_index_assign(c, array, index, value),
        }
    }

    fn compile_local_assign(&mut self, c: Cx, name: &str, value: &Expr) -> (r: Result<
        ExprTy,
        CodegenError,
    >)
        ensures
            typed_as(r, final(self)@, local_assign_code(c@, old(self)@, name@, *value)),
            grows(old(self)@, final(self)@),
            r is Ok ==> nests(old(self)@, final(self)@),
        decreases c@.level, expr_size(*value), 2nat, 0nat,
    {
        proof {
            expr_parts(*value);
        }
        match resolve_ident(c, self, name) {
            None => Err(undefined_variable(name)),
            Some(IdentRef::Local(slot)) => {
                let overload = find_compound_overload(c, self, name, &slot, value);
                match (overload, value) {
                    (Some(o), Expr::Binary(_, _, rhs)) => {
                        self.emit_load(slot.index);
                        self.compile_expr(c, rhs)?;
                        let ty = self.emit_operator_call(
                            o.fqcn.as_str(),
                            o.name.as_str(),
                            &types1(o.operand),
                            &o.return_ty,
                        );
                        self.op(Opcode::Dup, 1);
                        self.emit_store(slot.index);
                        Ok(ty)
                    },
                    _ => {
                        let value_ty = self.compile_expr(c, value)?;
                        match slot.boxed {
                            Some(inner_ty) => {
                                self.coerce_value(&value_ty, &inner_ty, name)?;
                                self.emit_write_boxed(slot.index, &inner_ty);
                                Ok(inner_ty)
                            },
                            None => {
                                self.coerce_value(&value_ty, &slot.ty, name)?;
                                self.op(Opcode::Dup, 1);
                                self.emit_store(slot.index);
                                Ok(slot.ty)
                            },
                        }
                    },
                }
            },
            Some(IdentRef::Captured(field)) => {
                let value_ty = self.compile_expr(c, value)?;
                self.coerce_value(&value_ty, &field.ty, name)?;
                self.emit_write_captured(c.unit.this_fqcn.as_str(), name, &field);
                Ok(field.ty)
            },
        }
    }

    /// Compiles `target.name = value`.
    pub fn compile_field_assign(&mut self, c: Cx, target: &Expr, name: &str, value: &Expr) -> (r:
        Result<ExprTy, CodegenError>)
        ensures
            typed_as(
                r,
                final(self)@,
                field_assign_code(c@, old(self)@, *target, name@, *value),
            ),
            grows(old(self)@, final(self)@),
            r is Ok ==> nests(old(self)@, final(self)@),
        decreases c@.level, expr_size(*target) + expr_size(*value), 2nat, 0nat,
    {
        proof {
            expr_parts(*target);
            expr_parts(*value);
        }
        if let Some((owner, f)) = find_static_field(c, self, target, name) {
            let value_ty = self.compile_expr(c, value)?;
            let ty = expr_ty_of(&f.ty);
            self.coerce_value(&value_ty, &ty, name)?;
            self.op(Opcode::Dup, 1);
            let field: u16 = self.field_ref_of(owner.as_str(), name, &f.ty);
            self.op_u16(Opcode::SetStatic, field, -1);
            return Ok(ty);
        }
        let target_ty = self.compile_expr(c, target)?;
        match &target_ty {
            ExprTy::Object(fqcn) => {
                let declared = lookup_field(c, fqcn.as_str(), name)?;
                let ty = expr_ty_of(&declared);
                let value_ty = self.compile_expr(c, value)?;
                self.coerce_value(&value_ty, &ty, name)?;
                self.op(Opcode::Dup, 1);
                let tmp: u16 = self.declare_scratch_local(ty.copy());
                self.emit_store(tmp);
                let field: u16 = self.field_ref_of(fqcn.as_str(), name, &declared);
                self.op_u16(Opcode::SetField, field, -2);
                self.emit_load(tmp);
                Ok(ty)
            },
            other => Err(
                CodegenError::Unsupported(
                    cat2("field access on non-object type ", show(other).as_str()),
                ),
            ),
        }
    }

    fn compile_index_assign(&mut self, c: Cx, target: &Expr, index: &Expr, value: &Expr) -> (r:
        Result<ExprTy, CodegenError>)
        ensures
            typed_as(
                r,
                final(self)@,
                index_assign_code(c@, old(self)@, *target, *index, *value),
            ),
            grows(old(self)@, final(self)@),
            r is Ok ==> nests(old(self)@, final(self)@),
        decreases
            c@.level,
            expr_size(*target) + expr_size(*index) + expr_size(*value),
            2nat,
            0nat,
    {
        proof {
            expr_parts(*target);
            expr_parts(*index);
            expr_parts(*value);
        }
        let target_ty = self.compile_expr(c, target)?;
        match target_ty {
            ExprTy::Array(elem) => {
                let elem_ty = *elem;
                let index_ty = self.compile_expr(c, index)?;
                if !matches!(index_ty, ExprTy::Int) {
                    return Err(unsupported("array index must be int"));
                }
                let value_ty = self.compile_expr(c, value)?;
                self.coerce_value(&value_ty, &elem_ty, "array element")?;
                self.op(Opcode::Dup, 1);
                let tmp: u16 = self.declare_scratch_local(elem_ty.copy());
                self.emit_store(tmp);
                self.op(Opcode::ArrayStore, -3);
                self.emit_load(tmp);
                Ok(elem_ty)
            },
            other => Err(
                CodegenError::Unsupported(
                    cat2("indexed assignment on non-array type ", show(&other).as_str()),
                ),
            ),
        }
    }

    /// Compiles the arguments of a call, and says how each is passed.
    fn compile_call_args(
        &mut self,
        c: Cx,
        args: &Vec<Arg>,
        acts: &Vec<Actual>,
        param_types: &Vec<ExprTy>,
        is_ref: &Vec<bool>,
        ctx: &str,
    ) -> (r: Result<Vec<RefPlan>, CodegenError>)
        requires
            given_within(actual_views(acts@), args@.len() as int),
        ensures
            ({
                let want = args_code(
                    c@,
                    old(self)@,
                    args@,
                    actual_views(acts@),
                    expr_ty_views(param_types@),
                    is_ref@,
                    ctx@,
                );
                match r {
                    Ok(plans) => want == Passed::Ok((final(self)@, plan_views(plans@))),
                    Err(e) => want == Passed::Err(e@),
                }
            }),
            grows(old(self)@, final(self)@),
            r is Ok ==> nests(old(self)@, final(self)@),
        decreases c@.level, args_size(args@), 2nat, 0nat,
    {
        let ghost acs = actual_views(acts@);
        let ghost tys = expr_ty_views(param_types@);
        if acts.len() != param_types.len() {
            return Err(
                CodegenError::Unsupported(
                    cat6(
                        "'",
                        ctx,
                        "' expects ",
                        decimal(param_types.len() as u64).as_str(),
                        " argument(s), got ",
                        decimal(acts.len() as u64).as_str(),
                    ),
                ),
            );
        }
        let plans = self.plan_refs(args, acts, param_types, is_ref, ctx)?;
        let ghost ps = plan_views(plans@);
        let ghost whole = arg_values_code(c@, self@, args@, acs, tys, ps, ctx@, 0);
        let mut i: usize = 0;
        while i < acts.len()
            invariant
                grows(old(self)@, self@),
                nests(old(self)@, self@),
                i <= acts@.len(),
                acts@.len() == param_types@.len(),
                plans@.len() == acts@.len(),
                acs == actual_views(acts@),
                tys == expr_ty_views(param_types@),
                ps == plan_views(plans@),
                given_within(acs, args@.len() as int),
                whole == arg_values_code(c@, self@, args@, acs, tys, ps, ctx@, i as int),
                args_code(c@, old(self)@, args@, acs, tys, is_ref@, ctx@) == (match whole {
                    Err(e) => Err(e),
                    Ok(s2) => Passed::Ok((s2, ps)),
                }),
            decreases acts@.len() - i,
        {
            assert(acs[i as int] == acts@[i as int]@);
            assert(tys[i as int] == param_types@[i as int]@);
            assert(ps[i as int] == plans@[i as int]@);
            match &plans[i] {
                RefPlan::NewBox(b, _, _) => self.emit_load(*b),
                RefPlan::Forward(b) => self.emit_load(*b),
                RefPlan::Plain => {
                    let actual = match &acts[i] {
                        Actual::Given(j) => {
                            proof {
                                arg_smaller(args@, *j as int);
                            }
                            self.compile_expr(c, &args[*j].value)?
                        },
                        Actual::Default(e) => {
                            if c.level == 0 {
                                return Err(
                                    CodegenError::Unsupported(
                                        cat3(
                                            "a default value of '",
                                            ctx,
                                            "' is defined in terms of itself",
                                        ),
                                    ),
                                );
                            }
                            self.compile_expr(c.deeper(), e)?
                        },
                        Actual::Missing => {
                            return Err(
                                CodegenError::Unsupported(
                                    cat3(
                                        "'",
                                        ctx,
                                        "' leaves a required parameter without an argument",
                                    ),
                                ),
                            );
                        },
                    };
                    self.coerce_value(&actual, &param_types[i], ctx)?;
                },
            }
            i = i + 1;
        }
        Ok(plans)
    }

    fn compile_call(&mut self, c: Cx, name: &str, args: &Vec<Arg>) -> (r: Result<
        ExprTy,
        CodegenError,
    >)
        ensures
            typed_as(r, final(self)@, call_code(c@, old(self)@, name@, args@)),
            grows(old(self)@, final(self)@),
            r is Ok ==> nests(old(self)@, final(self)@),
        decreases c@.level, args_size(args@), 4nat, 0nat,
    {
        match resolve_ident(c, self, name) {
            Some(IdentRef::Local(slot)) => {
                if let ExprTy::Closure { params, return_ty, fqcn, .. } = &slot.ty {
                    self.emit_load_value(&slot);
                    return self.compile_closure_invoke(c, params, return_ty, fqcn.as_str(), args);
                }
            },
            Some(IdentRef::Captured(field)) => {
                if let ExprTy::Closure { params, return_ty, fqcn, .. } = &field.ty {
                    self.emit_get_captured_field(c.unit.this_fqcn.as_str(), name, &field);
                    return self.compile_closure_invoke(c, params, return_ty, fqcn.as_str(), args);
                }
            },
            None => {},
        }
        self.compile_static_call(c, name, args)
    }

    fn compile_static_call(&mut self, c: Cx, name: &str, args: &Vec<Arg>) -> (r: Result<
        ExprTy,
        CodegenError,
    >)
        ensures
            typed_as(r, final(self)@, static_call_code(c@, old(self)@, name@, args@)),
            grows(old(self)@, final(self)@),
            r is Ok ==> nests(old(self)@, final(self)@),
        decreases c@.level, args_size(args@), 3nat, 0nat,
    {
        let sigs: &Vec<MethodSig> = match own_static_sigs(c, name) {
            Some(sigs) => sigs,
            None => {
                return Err(
                    CodegenError::Unsupported(cat3("call to unknown method '", name, "'")),
                );
            },
        };
        let tys = overload_arg_tys(&c.site(), c.typings, args);
        let k: usize = pick_static(c, sigs, args.len(), &tys);
        let sig = &sigs[k];
        assert(sig_views(sigs@)[k as int] == sig@);
        let acts = resolve_positional_args(&sig.param_names, &sig.defaults, args);
        let plans = self.compile_call_args(c, args, &acts, &sig.param_types, &sig.is_ref, name)?;
        self.op_u16(
            Opcode::InvokeStatic,
            sig.method_ref_index,
            delta_of_call(sig.return_ty.is_void(), acts.len(), false),
        );
        self.emit_unbox_ref_args(&plans);
        Ok(sig.return_ty.copy())
    }

    fn compile_invoke_method(
        &mut self,
        c: Cx,
        op: Opcode,
        fqcn: &str,
        name: &str,
        params: &Vec<Type>,
        is_ref: &Vec<bool>,
        return_ty: &Type,
        args: &Vec<Arg>,
        acts: &Vec<Actual>,
    ) -> (r: Result<ExprTy, CodegenError>)
        requires
            given_within(actual_views(acts@), args@.len() as int),
        ensures
            typed_as(
                r,
                final(self)@,
                invoke_method_code(
                    c@,
                    old(self)@,
                    op,
                    fqcn@,
                    name@,
                    type_views(params@),
                    is_ref@,
                    return_ty@,
                    args@,
                    actual_views(acts@),
                ),
            ),
            grows(old(self)@, final(self)@),
            r is Ok ==> nests(old(self)@, final(self)@),
        decreases c@.level, args_size(args@), 3nat, 0nat,
    {
        let tys = expr_tys_of(params);
        let plans = self.compile_call_args(c, args, acts, &tys, is_ref, name)?;
        let passed = calling_convention_params(params, is_ref);
        let m: u16 = self.named_method_ref(
            fqcn,
            name,
            method_descriptor(&passed, return_ty).as_str(),
        );
        let ret = expr_ty_of(return_ty);
        let receiver = !matches!(op, Opcode::InvokeStatic);
        self.op_u16(op, m, delta_of_call(ret.is_void(), acts.len(), receiver));
        self.emit_unbox_ref_args(&plans);
        Ok(ret)
    }

    fn compile_construct(
        &mut self,
        c: Cx,
        class: Option<u16>,
        fqcn: &str,
        ctx: &str,
        params: &Vec<Type>,
        is_ref: &Vec<bool>,
        args: &Vec<Arg>,
        acts: &Vec<Actual>,
    ) -> (r: Result<(), CodegenError>)
        requires
            given_within(actual_views(acts@), args@.len() as int),
        ensures
            done_as(
                r,
                final(self)@,
                construct_code(
                    c@,
                    old(self)@,
                    class,
                    fqcn@,
                    ctx@,
                    type_views(params@),
                    is_ref@,
                    args@,
                    actual_views(acts@),
                ),
            ),
            grows(old(self)@, final(self)@),
            r is Ok ==> nests(old(self)@, final(self)@),
        decreases c@.level, args_size(args@), 3nat, 0nat,
    {
        let tys = expr_tys_of(params);
        let plans = self.compile_call_args(c, args, acts, &tys, is_ref, ctx)?;
        let passed = calling_convention_params(params, is_ref);
        let n: u16 = self.add_utf8("<construct>");
        let d: u16 = self.add_type_desc(method_descriptor(&passed, &Type::Void).as_str());
        let index: u16 = match class {
            Some(i) => i,
            None => self.add_class(fqcn),
        };
        let m: u16 = self.add_method_ref(index, n, d);
        self.op_u16(Opcode::InvokeSpecial, m, delta_of_call(true, acts.len(), true));
        self.emit_unbox_ref_args(&plans);
        Ok(())
    }

    fn compile_new(&mut self, c: Cx, class: &str, args: &Vec<Arg>) -> (r: Result<
        ExprTy,
        CodegenError,
    >)
        ensures
            typed_as(r, final(self)@, new_code(c@, old(self)@, class@, args@)),
            grows(old(self)@, final(self)@),
            r is Ok ==> nests(old(self)@, final(self)@),
        decreases c@.level, args_size(args@), 4nat, 0nat,
    {
        let fqcn = resolve_class_name(c, class);
        let t = find_new_target(c, self, fqcn.as_str(), args)?;
        let index: u16 = self.add_class(fqcn.as_str());
        self.op_u16(Opcode::New, index, 1);
        self.op(Opcode::Dup, 1);
        self.compile_construct(
            c,
            Some(index),
            fqcn.as_str(),
            fqcn.as_str(),
            &t.params,
            &t.is_ref,
            args,
            &t.acts,
        )?;
        Ok(ExprTy::Object(fqcn))
    }

    pub fn compile_this_call(&mut self, c: Cx, args: &Vec<Arg>) -> (r: Result<(), CodegenError>)
        ensures
            done_as(r, final(self)@, this_call_code(c@, old(self)@, args@)),
            grows(old(self)@, final(self)@),
            r is Ok ==> nests(old(self)@, final(self)@),
        decreases c@.level, args_size(args@), 4nat, 0nat,
    {
        let tys = overload_arg_tys(&c.site(), c.typings, args);
        self.emit_load(0);
        match find_ctor_overload(c.unit.classes, c.unit.this_fqcn.as_str(), args.len(), &tys) {
            None => Err(
                no_constructor_error(c.unit.this_fqcn.as_str(), args.len(), " for this(...)"),
            ),
            Some(ctor) => {
                let acts = resolve_positional_args(&ctor.param_names, &ctor.defaults, args);
                self.compile_construct(
                    c,
                    Some(c.unit.this_class),
                    c.unit.this_fqcn.as_str(),
                    "this(...)",
                    &ctor.params,
                    &ctor.is_ref,
                    args,
                    &acts,
                )
            },
        }
    }

    pub fn compile_super_call(&mut self, c: Cx, args: &Vec<Arg>) -> (r: Result<(), CodegenError>)
        ensures
            done_as(r, final(self)@, super_call_code(c@, old(self)@, args@)),
            grows(old(self)@, final(self)@),
            r is Ok ==> nests(old(self)@, final(self)@),
        decreases c@.level, args_size(args@), 4nat, 0nat,
    {
        let parent = superclass_fqcn(c)?;
        let tys = overload_arg_tys(&c.site(), c.typings, args);
        self.emit_load(0);
        match find_ctor_overload(c.unit.classes, parent.as_str(), args.len(), &tys) {
            None => Err(no_constructor_error(parent.as_str(), args.len(), " for super(...)")),
            Some(ctor) => {
                let acts = resolve_positional_args(&ctor.param_names, &ctor.defaults, args);
                self.compile_construct(
                    c,
                    None,
                    parent.as_str(),
                    "super(...)",
                    &ctor.params,
                    &ctor.is_ref,
                    args,
                    &acts,
                )
            },
        }
    }

    fn compile_super_method_call(&mut self, c: Cx, name: &str, args: &Vec<Arg>) -> (r: Result<
        ExprTy,
        CodegenError,
    >)
        ensures
            typed_as(r, final(self)@, super_method_code(c@, old(self)@, name@, args@)),
            grows(old(self)@, final(self)@),
            r is Ok ==> nests(old(self)@, final(self)@),
        decreases c@.level, args_size(args@), 4nat, 0nat,
    {
        let parent = superclass_fqcn(c)?;
        let tys = overload_arg_tys(&c.site(), c.typings, args);
        self.emit_load(0);
        match find_method_overload(c.unit.classes, parent.as_str(), name, args.len(), &tys) {
            None => Err(
                CodegenError::Unsupported(
                    cat7(
                        "unknown method '",
                        name,
                        "' on superclass '",
                        parent.as_str(),
                        "' with ",
                        decimal(args.len() as u64).as_str(),
                        " argument(s)",
                    ),
                ),
            ),
            Some(m) => {
                let acts = resolve_positional_args(&m.param_names, &m.defaults, args);
                self.compile_invoke_method(
                    c,
                    Opcode::InvokeSpecial,
                    parent.as_str(),
                    name,
                    &m.params,
                    &m.is_ref,
                    &m.return_ty,
                    args,
                    &acts,
                )
            },
        }
    }

    fn compile_new_array(&mut self, c: Cx, elem_ty: &Type, dims: &Vec<Option<Expr>>) -> (r: Result<
        ExprTy,
        CodegenError,
    >)
        ensures
            typed_as(r, final(self)@, new_array_code(c@, old(self)@, elem_ty@, dims@)),
            grows(old(self)@, final(self)@),
            r is Ok ==> nests(old(self)@, final(self)@),
        decreases c@.level, dims_size(dims@), 2nat, 0nat,
    {
        let base = resolve_type(elem_ty, c.unit.imports);
        let m: usize = leading_count(dims);
        let result = expr_ty_of(&plain_array_of(&base, dims.len()));
        if m == 0 {
            self.op(Opcode::ConstNull, 1);
        } else {
            self.emit_new_array_level(c, 0, m, &base, dims)?;
        }
        Ok(result)
    }

    fn emit_new_array_level(
        &mut self,
        c: Cx,
        level: usize,
        m: usize,
        base: &Type,
        dims: &Vec<Option<Expr>>,
    ) -> (r: Result<(), CodegenError>)
        requires
            level < m <= dims@.len(),
        ensures
            done_as(
                r,
                final(self)@,
                array_level_code(c@, old(self)@, level as int, m as int, base@, dims@),
            ),
            grows(old(self)@, final(self)@),
            r is Ok ==> nests(old(self)@, final(self)@),
        decreases c@.level, dims_size(dims@), 1nat, (m - level) as nat,
    {
        proof {
            dim_smaller(dims@, level as int);
        }
        let size_expr = match &dims[level] {
            Some(e) => e,
            None => return Err(unsupported("array size missing")),
        };
        let size_ty = self.compile_expr(c, size_expr)?;
        if !matches!(size_ty, ExprTy::Int) {
            return Err(
                CodegenError::Unsupported(
                    cat2("array size must be int, found ", show(&size_ty).as_str()),
                ),
            );
        }
        let size: u16 = self.declare_scratch_local(ExprTy::Int);
        self.emit_store(size);
        let elem = plain_array_of(base, dims.len() - level - 1);
        let desc: u16 = self.add_type_desc(type_descriptor(&elem).as_str());
        self.emit_load(size);
        self.op_u16(Opcode::NewArray, desc, 0);
        if level + 1 >= m {
            return Ok(());
        }
        let array: u16 = self.declare_scratch_local(ExprTy::Array(Box::new(expr_ty_of(&elem))));
        self.emit_store(array);
        let index: u16 = self.declare_scratch_local(ExprTy::Int);
        self.emit_int_const(0);
        self.emit_store(index);
        let top: usize = self.pc();
        self.emit_load(index);
        self.emit_load(size);
        self.op(Opcode::CmpLt, -1);
        let exit: usize = self.branch(Opcode::IfFalse, -1);
        self.emit_load(array);
        self.emit_load(index);
        self.emit_new_array_level(c, level + 1, m, base, dims)?;
        self.op(Opcode::ArrayStore, -3);
        self.op_iinc(index, 1);
        self.emit_goto_to(top);
        self.patch_branch(exit);
        self.emit_load(array);
        Ok(())
    }

    fn compile_new_array_init(&mut self, c: Cx, elem_ty: &Type, elements: &Vec<Expr>) -> (r: Result<
        ExprTy,
        CodegenError,
    >)
        ensures
            typed_as(r, final(self)@, array_init_code(c@, old(self)@, elem_ty@, elements@)),
            grows(old(self)@, final(self)@),
            r is Ok ==> nests(old(self)@, final(self)@),
        decreases c@.level, exprs_size(elements@), 2nat, 0nat,
    {
        let base = resolve_type(elem_ty, c.unit.imports);
        let ty = expr_ty_of(&base);
        let ghost whole = elements_code(c@, self@, ty@, elements@, 0);
        let mut i: usize = 0;
        while i < elements.len()
            invariant
                grows(old(self)@, self@),
                nests(old(self)@, self@),
                i <= elements@.len(),
                whole == elements_code(c@, self@, ty@, elements@, i as int),
                whole is Err ==> array_init_code(c@, old(self)@, elem_ty@, elements@)
                    == Typed::Err(whole->Err_0),
            decreases elements@.len() - i,
        {
            proof {
                item_smaller(elements@, i as int);
            }
            let actual = self.compile_expr(c, &elements[i])?;
            self.coerce_value(&actual, &ty, "array element")?;
            i = i + 1;
        }
        if elements.len() > 0xffff {
            return Err(
                CodegenError::Unsupported(
                    cat3(
                        "array initializer list has ",
                        decimal(elements.len() as u64).as_str(),
                        " elements, max supported is 65535",
                    ),
                ),
            );
        }
        let desc: u16 = self.add_type_desc(type_descriptor(&base).as_str());
        let count: u16 = elements.len() as u16;
        self.op_u16_u16(Opcode::NewArrayInit, desc, count, 1 - count as i32);
        Ok(ExprTy::Array(Box::new(ty)))
    }

    fn compile_enum_value(&mut self, c: Cx, name: &str, init: Option<&Expr>) -> (r: Result<
        (),
        CodegenError,
    >)
        ensures
            done_as(
                r,
                final(self)@,
                enum_value_code(c@, old(self)@, name@, opt_expr(init)),
            ),
            grows(old(self)@, final(self)@),
            r is Ok ==> nests(old(self)@, final(self)@),
        decreases c@.level, 0nat, 0nat, 0nat,
    {
        match init {
            None => Err(CodegenError::Unsupported(cat3("enum case '", name, "' has no value"))),
            Some(e) => {
                if c.level == 0 {
                    return Err(
                        CodegenError::Unsupported(
                            cat3("enum case '", name, "' is defined in terms of itself"),
                        ),
                    );
                }
                self.compile_expr(c.deeper(), e)?;
                Ok(())
            },
        }
    }

    fn compile_field_access(&mut self, c: Cx, target: &Expr, name: &str) -> (r: Result<
        ExprTy,
        CodegenError,
    >)
        ensures
            typed_as(r, final(self)@, field_access_code(c@, old(self)@, *target, name@)),
            grows(old(self)@, final(self)@),
            r is Ok ==> nests(old(self)@, final(self)@),
        decreases c@.level, expr_size(*target), 2nat, 0nat,
    {
        proof {
            expr_parts(*target);
        }
        if let Some(path) = dotted_path(target) {
            let leading = head(path.as_str(), '.');
            if self.lookup_local(leading.as_str()).is_none() {
                if let Some(v) = enum_const_value(path.as_str(), name) {
                    self.emit_int_const(v);
                    return Ok(ExprTy::Object(path));
                }
                if let Some((fqcn, f)) = find_enum_case(c, leading.as_str(), name) {
                    self.compile_enum_value(c, name, f.init)?;
                    return Ok(ExprTy::Object(fqcn));
                }
                if let Some((owner, f)) = find_static_field(c, self, target, name) {
                    let field: u16 = self.field_ref_of(owner.as_str(), name, &f.ty);
                    self.op_u16(Opcode::GetStatic, field, 1);
                    return Ok(expr_ty_of(&f.ty));
                }
            }
        }
        self.compile_member(c, target, name)
    }

    fn compile_member(&mut self, c: Cx, target: &Expr, name: &str) -> (r: Result<
        ExprTy,
        CodegenError,
    >)
        ensures
            typed_as(r, final(self)@, member_code(c@, old(self)@, *target, name@)),
            grows(old(self)@, final(self)@),
            r is Ok ==> nests(old(self)@, final(self)@),
        decreases c@.level, expr_size(*target), 1nat, 0nat,
    {
        let target_ty = self.compile_expr(c, target)?;
        match &target_ty {
            ExprTy::Object(fqcn) => {
                if str_eq(name, "value") && is_enum_class(c, fqcn.as_str()) {
                    return Ok(backing_ty(c, fqcn.as_str()));
                }
                match member_ty(c, fqcn.as_str(), name) {
                    Some(ty) => {
                        let field: u16 = self.field_ref_of(fqcn.as_str(), name, &ty);
                        self.op_u16(Opcode::GetField, field, 0);
                        Ok(expr_ty_of(&ty))
                    },
                    None => Err(
                        CodegenError::Unsupported(
                            cat5("unknown field '", name, "' on '", fqcn.as_str(), "'"),
                        ),
                    ),
                }
            },
            other => Err(
                CodegenError::Unsupported(
                    cat2("field access on non-object type ", show(other).as_str()),
                ),
            ),
        }
    }

    fn compile_method_call(&mut self, c: Cx, target: &Expr, name: &str, args: &Vec<Arg>) -> (r:
        Result<ExprTy, CodegenError>)
        ensures
            typed_as(r, final(self)@, method_call_code(c@, old(self)@, *target, name@, args@)),
            grows(old(self)@, final(self)@),
            r is Ok ==> nests(old(self)@, final(self)@),
        decreases c@.level, expr_size(*target) + args_size(args@), 6nat, 0nat,
    {
        proof {
            expr_parts(*target);
        }
        if matches!(target, Expr::Super) {
            return self.compile_super_method_call(c, name, args);
        }
        if let Some(path) = dotted_path(target) {
            let leading = head(path.as_str(), '.');
            if self.lookup_local(leading.as_str()).is_none() && is_stdlib_class(path.as_str()) {
                let acts = require_positional_args(args)?;
                return self.compile_stdlib_call(c, path.as_str(), name, args, &acts);
            }
            if resolve_ident(c, self, leading.as_str()).is_none() {
                let fqcn = resolve_class_name(c, path.as_str());
                let tys = overload_arg_tys(&c.site(), c.typings, args);
                if let Some(m) = find_method_overload(
                    c.unit.classes,
                    fqcn.as_str(),
                    name,
                    args.len(),
                    &tys,
                ) {
                    if m.is_static {
                        let acts = resolve_positional_args(&m.param_names, &m.defaults, args);
                        return self.compile_invoke_method(
                            c,
                            Opcode::InvokeStatic,
                            fqcn.as_str(),
                            name,
                            &m.params,
                            &m.is_ref,
                            &m.return_ty,
                            args,
                            &acts,
                        );
                    }
                }
            }
        }
        self.compile_value_call(c, target, name, args)
    }

    fn compile_value_call(&mut self, c: Cx, target: &Expr, name: &str, args: &Vec<Arg>) -> (r:
        Result<ExprTy, CodegenError>)
        ensures
            typed_as(r, final(self)@, value_call_code(c@, old(self)@, *target, name@, args@)),
            grows(old(self)@, final(self)@),
            r is Ok ==> nests(old(self)@, final(self)@),
        decreases c@.level, expr_size(*target) + args_size(args@), 5nat, 0nat,
    {
        proof {
            expr_parts(*target);
        }
        let target_ty = self.compile_expr(c, target)?;
        match &target_ty {
            ExprTy::Array(elem) => {
                if str_eq(name, "length") && args.len() == 0 {
                    self.op(Opcode::ArrayLength, 0);
                    return Ok(ExprTy::Int);
                }
                let acts = require_positional_args(args)?;
                self.compile_array_method_call(c, elem, name, args, &acts)
            },
            ExprTy::StringT => {
                if args.len() == usize::MAX {
                    proof {
                        reveal(native_static);
                    }
                    return Err(unknown_method_error(name, "string", args.len()));
                }
                match signature("system.String", name, args.len() + 1) {
                    None => Err(unknown_method_error(name, "string", args.len())),
                    Some((params, ret)) => {
                        let acts = require_positional_args(args)?;
                        let tys = skip_first(&params);
                        let by_value: Vec<bool> = Vec::new();
                        assert(by_value@ =~= Seq::empty());
                        self.compile_call_args(c, args, &acts, &tys, &by_value, name)?;
                        Ok(self.emit_native_static("system.String", name, &params, &ret))
                    },
                }
            },
            ExprTy::Object(fqcn) => self.compile_object_call(c, fqcn.as_str(), name, args),
            other => Err(
                CodegenError::Unsupported(
                    cat2("method call on unsupported type ", show(other).as_str()),
                ),
            ),
        }
    }

    fn compile_object_call(&mut self, c: Cx, fqcn: &str, name: &str, args: &Vec<Arg>) -> (r: Result<
        ExprTy,
        CodegenError,
    >)
        ensures
            typed_as(r, final(self)@, object_call_code(c@, old(self)@, fqcn@, name@, args@)),
            grows(old(self)@, final(self)@),
            r is Ok ==> nests(old(self)@, final(self)@),
        decreases c@.level, args_size(args@), 4nat, 0nat,
    {
        let op = if is_enum_class(c, fqcn) {
            Opcode::InvokeSpecial
        } else {
            Opcode::InvokeInstance
        };
        let native = match instance_signature(fqcn, name, args.len()) {
            Some(sig) => Some(sig),
            None => native_generics::method_signature(c.unit.natives, fqcn, name, args.len()),
        };
        match native {
            Some((params, ret)) => {
                let acts = require_positional_args(args)?;
                let is_ref = all_by_value(params.len());
                self.compile_invoke_method(c, op, fqcn, name, &params, &is_ref, &ret, args, &acts)
            },
            None => match find_method_overload(
                c.unit.classes,
                fqcn,
                name,
                args.len(),
                &overload_arg_tys(&c.site(), c.typings, args),
            ) {
                None => Err(
                    unknown_method_error(name, cat3("'", fqcn, "'").as_str(), args.len()),
                ),
                Some(m) => {
                    let acts = resolve_positional_args(&m.param_names, &m.defaults, args);
                    self.compile_invoke_method(
                        c,
                        op,
                        fqcn,
                        name,
                        &m.params,
                        &m.is_ref,
                        &m.return_ty,
                        args,
                        &acts,
                    )
                },
            },
        }
    }

    fn compile_slice(
        &mut self,
        c: Cx,
        elem_ty: &ExprTy,
        name: &str,
        args: &Vec<Arg>,
        acts: &Vec<Actual>,
    ) -> (r: Result<ExprTy, CodegenError>)
        requires
            given_within(actual_views(acts@), args@.len() as int),
        ensures
            typed_as(
                r,
                final(self)@,
                slice_code(c@, old(self)@, elem_ty@, name@, args@, actual_views(acts@)),
            ),
            grows(old(self)@, final(self)@),
            r is Ok ==> nests(old(self)@, final(self)@),
        decreases c@.level, args_size(args@), 3nat, 0nat,
    {
        let mut ints: Vec<ExprTy> = Vec::new();
        ints.push(ExprTy::Int);
        ints.push(ExprTy::Int);
        assert(expr_ty_views(ints@) =~= seq![ExprTyView::Int, ExprTyView::Int]);
        let ret = ExprTy::Array(Box::new(elem_ty.copy()));
        let by_value: Vec<bool> = Vec::new();
        assert(by_value@ =~= Seq::empty());
        self.compile_call_args(c, args, acts, &ints, &by_value, name)?;
        self.emit_array_call(name, &ints, &ret);
        Ok(ret)
    }

    fn compile_array_method_call(
        &mut self,
        c: Cx,
        elem_ty: &ExprTy,
        name: &str,
        args: &Vec<Arg>,
        acts: &Vec<Actual>,
    ) -> (r: Result<ExprTy, CodegenError>)
        requires
            given_within(actual_views(acts@), args@.len() as int),
        ensures
            typed_as(
                r,
                final(self)@,
                array_method_code(
                    c@,
                    old(self)@,
                    elem_ty@,
                    name@,
                    args@,
                    actual_views(acts@),
                ),
            ),
            grows(old(self)@, final(self)@),
            r is Ok ==> nests(old(self)@, final(self)@),
        decreases c@.level, args_size(args@), 4nat, 0nat,
    {
        if str_eq(name, "slice") && args.len() == 2 {
            self.compile_slice(c, elem_ty, name, args, acts)
        } else if args.len() == 1 && takes_callback(name) {
            proof {
                arg_smaller(args@, 0);
            }
            let closure_ty = self.compile_expr(c, &args[0].value)?;
            let ret = array_method_ty(elem_ty, name, &closure_ty)?;
            self.coerce_value(&closure_ty, &ExprTy::Void, name)?;
            let mut callback: Vec<ExprTy> = Vec::new();
            callback.push(ExprTy::Void);
            assert(expr_ty_views(callback@) =~= seq![ExprTyView::Void]);
            self.emit_array_call(name, &callback, &ret);
            Ok(ret)
        } else {
            Err(
                CodegenError::Unsupported(
                    cat5(
                        "unknown array method '",
                        name,
                        "' with ",
                        decimal(args.len() as u64).as_str(),
                        " argument(s)",
                    ),
                ),
            )
        }
    }

    fn compile_print(&mut self, c: Cx, fqcn: &str, name: &str, args: &Vec<Arg>) -> (r: Result<
        ExprTy,
        CodegenError,
    >)
        ensures
            typed_as(r, final(self)@, print_code(c@, old(self)@, fqcn@, name@, args@)),
            grows(old(self)@, final(self)@),
            r is Ok ==> nests(old(self)@, final(self)@),
        decreases c@.level, args_size(args@), 2nat, 0nat,
    {
        if args.len() != 1 {
            return Err(
                CodegenError::Unsupported(
                    cat4(
                        "'",
                        name,
                        "' expects 1 argument, got ",
                        decimal(args.len() as u64).as_str(),
                    ),
                ),
            );
        }
        proof {
            arg_smaller(args@, 0);
        }
        let ty = self.compile_expr(c, &args[0].value)?;
        if !matches!(ty, ExprTy::StringT | ExprTy::Int | ExprTy::Float | ExprTy::Bool) {
            return Err(
                CodegenError::Unsupported(
                    cat4(
                        "'",
                        name,
                        "' expects a string/int/float/bool argument, got ",
                        show(&ty).as_str(),
                    ),
                ),
            );
        }
        self.emit_stringed(&ty);
        Ok(self.emit_native_static(fqcn, name, &types1(Type::StringT), &Type::Void))
    }

    fn compile_run(&mut self, c: Cx, fqcn: &str, name: &str, args: &Vec<Arg>) -> (r: Result<
        ExprTy,
        CodegenError,
    >)
        ensures
            typed_as(r, final(self)@, run_code(c@, old(self)@, fqcn@, name@, args@)),
            grows(old(self)@, final(self)@),
            r is Ok ==> nests(old(self)@, final(self)@),
        decreases c@.level, args_size(args@), 2nat, 0nat,
    {
        if args.len() != 1 {
            return Err(
                CodegenError::Unsupported(
                    cat2("'run' expects 1 argument, got ", decimal(args.len() as u64).as_str()),
                ),
            );
        }
        proof {
            arg_smaller(args@, 0);
        }
        let ty = self.compile_expr(c, &args[0].value)?;
        if !is_command_like(&ty) {
            return Err(
                CodegenError::Unsupported(
                    cat2(
                        "'run' expects a string or string[] argument, got ",
                        show(&ty).as_str(),
                    ),
                ),
            );
        }
        Ok(
            self.emit_native_static(
                fqcn,
                name,
                &types1(expr_ty_to_type(&ty)),
                &process_result(),
            ),
        )
    }

    fn compile_stdlib_call(
        &mut self,
        c: Cx,
        fqcn: &str,
        name: &str,
        args: &Vec<Arg>,
        acts: &Vec<Actual>,
    ) -> (r: Result<ExprTy, CodegenError>)
        requires
            given_within(actual_views(acts@), args@.len() as int),
        ensures
            typed_as(
                r,
                final(self)@,
                stdlib_call_code(c@, old(self)@, fqcn@, name@, args@, actual_views(acts@)),
            ),
            grows(old(self)@, final(self)@),
            r is Ok ==> nests(old(self)@, final(self)@),
        decreases c@.level, args_size(args@), 3nat, 0nat,
    {
        if is_printlike(fqcn, name) {
            return self.compile_print(c, fqcn, name, args);
        }
        if str_eq(fqcn, "system.ps.Process") && str_eq(name, "run") {
            return self.compile_run(c, fqcn, name, args);
        }
        match signature(fqcn, name, args.len()) {
            None => Err(
                CodegenError::Unsupported(
                    cat7(
                        "unknown stdlib method '",
                        fqcn,
                        ".",
                        name,
                        "' with ",
                        decimal(args.len() as u64).as_str(),
                        " argument(s)",
                    ),
                ),
            ),
            Some((params, ret)) => {
                let tys = expr_tys_of(&params);
                let by_value: Vec<bool> = Vec::new();
                assert(by_value@ =~= Seq::empty());
                self.compile_call_args(c, args, acts, &tys, &by_value, name)?;
                Ok(self.emit_native_static(fqcn, name, &params, &ret))
            },
        }
    }

    fn compile_index(&mut self, c: Cx, target: &Expr, index: &Expr) -> (r: Result<
        ExprTy,
        CodegenError,
    >)
        ensures
            typed_as(r, final(self)@, index_code(c@, old(self)@, *target, *index)),
            grows(old(self)@, final(self)@),
            r is Ok ==> nests(old(self)@, final(self)@),
        decreases c@.level, expr_size(*target) + expr_size(*index), 2nat, 0nat,
    {
        proof {
            expr_parts(*target);
            expr_parts(*index);
        }
        let target_ty = self.compile_expr(c, target)?;
        match target_ty {
            ExprTy::Array(elem) => {
                let index_ty = self.compile_expr(c, index)?;
                if !matches!(index_ty, ExprTy::Int) {
                    return Err(unsupported("array index must be int"));
                }
                self.op(Opcode::ArrayLoad, -1);
                Ok(*elem)
            },
            other => Err(
                CodegenError::Unsupported(
                    cat2("indexing on non-array type ", show(&other).as_str()),
                ),
            ),
        }
    }

    fn compile_instanceof(&mut self, c: Cx, target: &Expr, class: &str) -> (r: Result<
        ExprTy,
        CodegenError,
    >)
        ensures
            typed_as(r, final(self)@, instanceof_code(c@, old(self)@, *target, class@)),
            grows(old(self)@, final(self)@),
            r is Ok ==> nests(old(self)@, final(self)@),
        decreases c@.level, expr_size(*target), 1nat, 0nat,
    {
        self.compile_expr(c, target)?;
        let index: u16 = self.add_class(resolve_class_name(c, class).as_str());
        self.op_u16(Opcode::InstanceOf, index, 0);
        Ok(ExprTy::Bool)
    }

    fn compile_cast(&mut self, c: Cx, ty: &Type, inner: &Expr) -> (r: Result<ExprTy, CodegenError>)
        ensures
            typed_as(r, final(self)@, cast_code(c@, old(self)@, ty@, *inner)),
            grows(old(self)@, final(self)@),
            r is Ok ==> nests(old(self)@, final(self)@),
        decreases c@.level, expr_size(*inner), 1nat, 0nat,
    {
        let actual = self.compile_expr(c, inner)?;
        let target = expr_ty_of(&resolve_type(ty, c.unit.imports));
        self.emit_conversion(&actual, &target);
        Ok(target)
    }

    fn compile_unary(&mut self, c: Cx, op: UnOp, inner: &Expr) -> (r: Result<ExprTy, CodegenError>)
        ensures
            typed_as(r, final(self)@, unary_code(c@, old(self)@, op, *inner)),
            grows(old(self)@, final(self)@),
            r is Ok ==> nests(old(self)@, final(self)@),
        decreases c@.level, expr_size(*inner), 1nat, 0nat,
    {
        let ty = self.compile_expr(c, inner)?;
        self.emit_unary_op(c, op, ty)
    }

    fn emit_unary_op(&mut self, c: Cx, op: UnOp, ty: ExprTy) -> (r: Result<ExprTy, CodegenError>)
        ensures
            typed_as(r, final(self)@, unary_op(c@, old(self)@, op, ty@)),
            grows(old(self)@, final(self)@),
            r is Ok ==> nests(old(self)@, final(self)@),
    {
        if let ExprTy::Object(fqcn) = &ty {
            let method_name: &str = match op {
                UnOp::Neg => "operator-",
                UnOp::Not => "operator!",
            };
            if let Some((_, m)) = find_operator_method(
                c.unit.classes,
                fqcn.as_str(),
                method_name,
                &types0(),
            ) {
                return Ok(
                    self.emit_operator_call(fqcn.as_str(), method_name, &types0(), &m.return_ty),
                );
            }
        }
        match (op, &ty) {
            (UnOp::Neg, ExprTy::Int) => {
                self.op(Opcode::INeg, 0);
                Ok(ty)
            },
            (UnOp::Neg, ExprTy::Float) => {
                self.op(Opcode::FNeg, 0);
                Ok(ty)
            },
            (UnOp::Neg, other) => Err(
                CodegenError::Unsupported(cat2("unary '-' on ", show(other).as_str())),
            ),
            (UnOp::Not, ExprTy::Bool) => {
                self.op(Opcode::Not, 0);
                Ok(ty)
            },
            (UnOp::Not, other) => Err(
                CodegenError::Unsupported(cat2("unary '!' on ", show(other).as_str())),
            ),
        }
    }

    fn emit_stringed(&mut self, ty: &ExprTy)
        ensures
            final(self)@ == stringed(old(self)@, ty@),
            grows(old(self)@, final(self)@),
            nests(old(self)@, final(self)@),
    {
        if !matches!(ty, ExprTy::StringT) {
            self.op(Opcode::ToString, 0);
        }
    }

    fn emit_binary_op(&mut self, op: BinOp, ty_l: &ExprTy, ty_r: &ExprTy) -> (r: Result<
        ExprTy,
        CodegenError,
    >)
        ensures
            typed_as(r, final(self)@, binary_op(old(self)@, op, ty_l@, ty_r@)),
            grows(old(self)@, final(self)@),
            r is Ok ==> nests(old(self)@, final(self)@),
    {
        if matches!(op, BinOp::Eq | BinOp::Ne) && !(is_numeric_ty(ty_l) && is_numeric_ty(ty_r)) {
            self.op(
                if matches!(op, BinOp::Eq) {
                    Opcode::CmpEq
                } else {
                    Opcode::CmpNe
                },
                -1,
            );
            return Ok(ExprTy::Bool);
        }
        let ty = self.promote_numeric(ty_l, ty_r)?;
        match op {
            BinOp::Eq => {
                self.op(Opcode::CmpEq, -1);
                Ok(ExprTy::Bool)
            },
            BinOp::Ne => {
                self.op(Opcode::CmpNe, -1);
                Ok(ExprTy::Bool)
            },
            BinOp::Lt => {
                self.op(Opcode::CmpLt, -1);
                Ok(ExprTy::Bool)
            },
            BinOp::Gt => {
                self.op(Opcode::CmpGt, -1);
                Ok(ExprTy::Bool)
            },
            BinOp::Le => {
                self.op(Opcode::CmpLe, -1);
                Ok(ExprTy::Bool)
            },
            BinOp::Ge => {
                self.op(Opcode::CmpGe, -1);
                Ok(ExprTy::Bool)
            },
            BinOp::Cmp3 => {
                self.op(Opcode::CmpThreeWay, -1);
                Ok(ExprTy::Int)
            },
            _ => {
                self.op(arithmetic_opcode(op, &ty), -1);
                Ok(ty)
            },
        }
    }

    fn compile_binary(&mut self, c: Cx, op: BinOp, lhs: &Expr, rhs: &Expr) -> (r: Result<
        ExprTy,
        CodegenError,
    >)
        ensures
            typed_as(r, final(self)@, binary_code(c@, old(self)@, op, *lhs, *rhs)),
            grows(old(self)@, final(self)@),
            r is Ok ==> nests(old(self)@, final(self)@),
        decreases c@.level, expr_size(*lhs) + expr_size(*rhs), 3nat, 0nat,
    {
        proof {
            expr_parts(*lhs);
            expr_parts(*rhs);
        }
        match op {
            BinOp::And => return self.compile_short_circuit(c, true, lhs, rhs),
            BinOp::Or => return self.compile_short_circuit(c, false, lhs, rhs),
            _ => {},
        }
        let l = peek_type(c, self, lhs);
        let r = peek_type(c, self, rhs);
        if let Some(o) = operator_overload(c, op, &l, &r) {
            self.compile_expr(c, lhs)?;
            self.compile_expr(c, rhs)?;
            return Ok(
                self.emit_operator_call(
                    o.fqcn.as_str(),
                    o.name.as_str(),
                    &types1(o.operand),
                    &o.return_ty,
                ),
            );
        }
        let joined = matches!(op, BinOp::Add) && is_concatenation(&l, &r);
        let ty_l = self.compile_expr(c, lhs)?;
        if joined {
            self.emit_stringed(&ty_l);
            let ty_r = self.compile_expr(c, rhs)?;
            self.emit_stringed(&ty_r);
            self.op(Opcode::StrConcat, -1);
            return Ok(ExprTy::StringT);
        }
        let ty_r = self.compile_expr(c, rhs)?;
        self.emit_binary_op(op, &ty_l, &ty_r)
    }

    fn compile_short_circuit(&mut self, c: Cx, is_and: bool, lhs: &Expr, rhs: &Expr) -> (r: Result<
        ExprTy,
        CodegenError,
    >)
        ensures
            typed_as(r, final(self)@, short_circuit_code(c@, old(self)@, is_and, *lhs, *rhs)),
            grows(old(self)@, final(self)@),
            r is Ok ==> nests(old(self)@, final(self)@),
        decreases c@.level, expr_size(*lhs) + expr_size(*rhs), 2nat, 0nat,
    {
        proof {
            expr_parts(*lhs);
            expr_parts(*rhs);
        }
        let ty_l = self.compile_expr(c, lhs)?;
        if !matches!(ty_l, ExprTy::Bool) {
            return Err(
                CodegenError::Unsupported(
                    cat2("logical operator on non-bool ", show(&ty_l).as_str()),
                ),
            );
        }
        self.op(Opcode::Dup, 1);
        let decided: usize = self.branch(
            if is_and {
                Opcode::IfFalse
            } else {
                Opcode::IfTrue
            },
            -1,
        );
        self.op(Opcode::Pop, -1);
        let ty_r = self.compile_expr(c, rhs)?;
        if !matches!(ty_r, ExprTy::Bool) {
            return Err(
                CodegenError::Unsupported(
                    cat2("logical operator on non-bool ", show(&ty_r).as_str()),
                ),
            );
        }
        let end: usize = self.branch(Opcode::Goto, 0);
        self.patch_branch(decided);
        self.patch_branch(end);
        Ok(ExprTy::Bool)
    }
}

fn skip_first(params: &Vec<Type>) -> (r: Vec<ExprTy>)
    ensures
        expr_ty_views(r@) == expr_tys(
            after_first(type_views(params@)),
        ),
{
    let ghost ps = type_views(params@);
    let mut out: Vec<ExprTy> = Vec::new();
    let mut i: usize = 1;
    while i < params.len()
        invariant
            1 <= i,
            i <= params@.len() || i == 1,
            ps == type_views(params@),
            out@.len() == i - 1,
            forall|j: int|
                0 <= j < i - 1 ==> (#[trigger] out@[j])@ == expr_ty(
                    ps[j + 1],
                ),
        decreases params@.len() - i,
    {
        out.push(expr_ty_of(&params[i]));
        i = i + 1;
    }
    assert(expr_ty_views(out@) =~= expr_tys(
        after_first(ps),
    ));
    out
}

} // verus!
