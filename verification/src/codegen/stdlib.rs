//! The native classes, as the code generator sees them.

use crate::ast::{type_views, Type, TypeView};
use crate::native::{
    array_type, array_view, file_mode_of, file_mode_tag, instance_lookup, instance_sig, named_type,
    named_view, nullable_type, nullable_view, sig_view, static_env, static_env_sig,
    static_time_date_time, static_time_date_time_sig, static_time_time_zone,
    static_time_time_zone_sig, types0, types1, types2, types3,
};
use crate::text::str_eq;
use vstd::prelude::*;

verus! {

/// Whether this is a native class with static methods.
#[verifier::opaque]
pub open spec fn stdlib_class(fqcn: Seq<char>) -> bool {
    fqcn == "system.Out"@
        || fqcn == "system.Err"@
        || fqcn == "system.In"@
        || fqcn == "system.Int"@
        || fqcn == "system.Float"@
        || fqcn == "system.Bool"@
        || fqcn == "system.String"@
        || fqcn == "system.io.File"@
        || fqcn == "system.io.Directory"@
        || fqcn == "system.io.Path"@
        || fqcn == "system.SecureRandom"@
        || fqcn == "system.Uuid"@
        || fqcn == "system.Env"@
        || fqcn == "system.net.TcpStream"@
        || fqcn == "system.net.Http"@
        || fqcn == "system.thread.Thread"@
        || fqcn == "system.ps.Process"@
        || fqcn == "system.text.Regex"@
        || fqcn == "system.text.Encoding"@
        || fqcn == "system.time.DateTime"@
        || fqcn == "system.time.TimeZone"@
}

pub fn is_stdlib_class(fqcn: &str) -> (r: bool)
    ensures
        r == stdlib_class(fqcn@),
{
    reveal(stdlib_class);
    str_eq(fqcn, "system.Out")
        || str_eq(fqcn, "system.Err")
        || str_eq(fqcn, "system.In")
        || str_eq(fqcn, "system.Int")
        || str_eq(fqcn, "system.Float")
        || str_eq(fqcn, "system.Bool")
        || str_eq(fqcn, "system.String")
        || str_eq(fqcn, "system.io.File")
        || str_eq(fqcn, "system.io.Directory")
        || str_eq(fqcn, "system.io.Path")
        || str_eq(fqcn, "system.SecureRandom")
        || str_eq(fqcn, "system.Uuid")
        || str_eq(fqcn, "system.Env")
        || str_eq(fqcn, "system.net.TcpStream")
        || str_eq(fqcn, "system.net.Http")
        || str_eq(fqcn, "system.thread.Thread")
        || str_eq(fqcn, "system.ps.Process")
        || str_eq(fqcn, "system.text.Regex")
        || str_eq(fqcn, "system.text.Encoding")
        || str_eq(fqcn, "system.time.DateTime")
        || str_eq(fqcn, "system.time.TimeZone")
}

/// The number of a constant of a native enumeration.
#[verifier::opaque]
pub open spec fn native_constant_value(fqcn: Seq<char>, name: Seq<char>) -> Option<i64> {
    if fqcn == "system.io.FileMode"@ {
        file_mode_tag(name)
    } else {
        None
    }
}

pub fn enum_const_value(fqcn: &str, name: &str) -> (r: Option<i64>)
    ensures
        r == native_constant_value(fqcn@, name@),
{
    reveal(native_constant_value);
    if str_eq(fqcn, "system.io.FileMode") {
        file_mode_of(name)
    } else {
        None
    }
}

pub(crate) fn process_result() -> (r: Type)
    ensures
        r@ == named_view("system.ps.ProcessResult"@),
{
    named_type("system.ps.ProcessResult")
}

pub fn instance_signature(fqcn: &str, name: &str, argc: usize) -> (r: Option<(Vec<Type>, Type)>)
    ensures
        sig_view(r) == instance_sig(fqcn@, name@, argc as nat),
{
    instance_lookup(fqcn, name, argc)
}

/// The parameters of a constructor of a native class.
#[verifier::opaque]
pub open spec fn native_ctor(fqcn: Seq<char>, argc: nat) -> Option<Seq<TypeView>> {
    if fqcn == "system.Random"@ && argc == 0 {
        Some(Seq::empty())
    } else if fqcn == "system.Random"@ && argc == 1 {
        Some(seq![TypeView::Int])
    } else if fqcn == "system.net.TcpListener"@ && argc == 2 {
        Some(seq![TypeView::StringT, TypeView::Int])
    } else if fqcn == "system.net.UdpSocket"@ && argc == 0 {
        Some(Seq::empty())
    } else if fqcn == "system.thread.Thread"@ && argc == 1 {
        Some(seq![TypeView::Void])
    } else if fqcn == "system.thread.Mutex"@ && argc == 0 {
        Some(Seq::empty())
    } else if fqcn == "system.thread.Semaphore"@ && argc == 1 {
        Some(seq![TypeView::Int])
    } else {
        None
    }
}

pub open spec fn list_view(o: Option<Vec<Type>>) -> Option<Seq<TypeView>> {
    match o {
        Some(v) => Some(type_views(v@)),
        None => None,
    }
}

pub fn ctor_param_types(fqcn: &str, argc: usize) -> (r: Option<Vec<Type>>)
    ensures
        list_view(r) == native_ctor(fqcn@, argc as nat),
{
    reveal(native_ctor);
    if str_eq(fqcn, "system.Random") && argc == 0 {
        Some(types0())
    } else if str_eq(fqcn, "system.Random") && argc == 1 {
        Some(types1(Type::Int))
    } else if str_eq(fqcn, "system.net.TcpListener") && argc == 2 {
        Some(types2(Type::StringT, Type::Int))
    } else if str_eq(fqcn, "system.net.UdpSocket") && argc == 0 {
        Some(types0())
    } else if str_eq(fqcn, "system.thread.Thread") && argc == 1 {
        Some(types1(Type::Void))
    } else if str_eq(fqcn, "system.thread.Mutex") && argc == 0 {
        Some(types0())
    } else if str_eq(fqcn, "system.thread.Semaphore") && argc == 1 {
        Some(types1(Type::Int))
    } else {
        None
    }
}

/// Whether this method prints its only argument as a string.
pub open spec fn printlike(fqcn: Seq<char>, name: Seq<char>) -> bool {
    (fqcn == "system.Out"@ || fqcn == "system.Err"@) && (name == "print"@ || name == "println"@)
}

pub fn is_printlike(fqcn: &str, name: &str) -> (r: bool)
    ensures
        r == printlike(fqcn@, name@),
{
    (str_eq(fqcn, "system.Out") || str_eq(fqcn, "system.Err")) && (str_eq(name, "print") || str_eq(
        name,
        "println",
    ))
}

/// The methods of `system.In`.
pub open spec fn static_in_sig(name: Seq<char>, argc: nat) -> Option<(Seq<TypeView>, TypeView)> {
    if name == "readLine"@ && argc == 0 {
        Some((Seq::empty(), nullable_view(TypeView::StringT)))
    } else {
        None
    }
}

fn static_in(name: &str, argc: usize) -> (r: Option<(Vec<Type>, Type)>)
    ensures
        sig_view(r) == static_in_sig(name@, argc as nat),
{
    if str_eq(name, "readLine") && argc == 0 {
        Some((types0(), nullable_type(Type::StringT)))
    } else {
        None
    }
}

/// The methods of `system.Int`.
pub open spec fn static_int_sig(name: Seq<char>, argc: nat) -> Option<(Seq<TypeView>, TypeView)> {
    if name == "parse"@ && argc == 1 {
        Some((seq![TypeView::StringT], TypeView::Int))
    } else if name == "tryParse"@ && argc == 1 {
        Some((seq![TypeView::StringT], nullable_view(TypeView::Int)))
    } else if name == "toString"@ && argc == 1 {
        Some((seq![TypeView::Int], TypeView::StringT))
    } else {
        None
    }
}

fn static_int(name: &str, argc: usize) -> (r: Option<(Vec<Type>, Type)>)
    ensures
        sig_view(r) == static_int_sig(name@, argc as nat),
{
    if str_eq(name, "parse") && argc == 1 {
        Some((types1(Type::StringT), Type::Int))
    } else if str_eq(name, "tryParse") && argc == 1 {
        Some((types1(Type::StringT), nullable_type(Type::Int)))
    } else if str_eq(name, "toString") && argc == 1 {
        Some((types1(Type::Int), Type::StringT))
    } else {
        None
    }
}

/// The methods of `system.Float`.
pub open spec fn static_float_sig(name: Seq<char>, argc: nat) -> Option<(Seq<TypeView>, TypeView)> {
    if name == "parse"@ && argc == 1 {
        Some((seq![TypeView::StringT], TypeView::Float))
    } else if name == "tryParse"@ && argc == 1 {
        Some((seq![TypeView::StringT], nullable_view(TypeView::Float)))
    } else if name == "toString"@ && argc == 1 {
        Some((seq![TypeView::Float], TypeView::StringT))
    } else {
        None
    }
}

fn static_float(name: &str, argc: usize) -> (r: Option<(Vec<Type>, Type)>)
    ensures
        sig_view(r) == static_float_sig(name@, argc as nat),
{
    if str_eq(name, "parse") && argc == 1 {
        Some((types1(Type::StringT), Type::Float))
    } else if str_eq(name, "tryParse") && argc == 1 {
        Some((types1(Type::StringT), nullable_type(Type::Float)))
    } else if str_eq(name, "toString") && argc == 1 {
        Some((types1(Type::Float), Type::StringT))
    } else {
        None
    }
}

/// The methods of `system.Bool`.
pub open spec fn static_bool_sig(name: Seq<char>, argc: nat) -> Option<(Seq<TypeView>, TypeView)> {
    if name == "parse"@ && argc == 1 {
        Some((seq![TypeView::StringT], TypeView::Bool))
    } else if name == "tryParse"@ && argc == 1 {
        Some((seq![TypeView::StringT], nullable_view(TypeView::Bool)))
    } else if name == "toString"@ && argc == 1 {
        Some((seq![TypeView::Bool], TypeView::StringT))
    } else {
        None
    }
}

fn static_bool(name: &str, argc: usize) -> (r: Option<(Vec<Type>, Type)>)
    ensures
        sig_view(r) == static_bool_sig(name@, argc as nat),
{
    if str_eq(name, "parse") && argc == 1 {
        Some((types1(Type::StringT), Type::Bool))
    } else if str_eq(name, "tryParse") && argc == 1 {
        Some((types1(Type::StringT), nullable_type(Type::Bool)))
    } else if str_eq(name, "toString") && argc == 1 {
        Some((types1(Type::Bool), Type::StringT))
    } else {
        None
    }
}

/// The methods of `system.String`.
pub open spec fn static_string_sig(name: Seq<char>, argc: nat) -> Option<(Seq<TypeView>, TypeView)> {
    if name == "length"@ && argc == 1 {
        Some((seq![TypeView::StringT], TypeView::Int))
    } else if name == "charAt"@ && argc == 2 {
        Some((seq![TypeView::StringT, TypeView::Int], TypeView::StringT))
    } else if name == "substring"@ && argc == 2 {
        Some((seq![TypeView::StringT, TypeView::Int], TypeView::StringT))
    } else if name == "substring"@ && argc == 3 {
        Some((seq![TypeView::StringT, TypeView::Int, TypeView::Int], TypeView::StringT))
    } else if name == "indexOf"@ && argc == 2 {
        Some((seq![TypeView::StringT, TypeView::StringT], TypeView::Int))
    } else if name == "indexOf"@ && argc == 3 {
        Some((seq![TypeView::StringT, TypeView::StringT, TypeView::Int], TypeView::Int))
    } else if name == "contains"@ && argc == 2 {
        Some((seq![TypeView::StringT, TypeView::StringT], TypeView::Bool))
    } else if name == "toUpperCase"@ && argc == 1 {
        Some((seq![TypeView::StringT], TypeView::StringT))
    } else if name == "toLowerCase"@ && argc == 1 {
        Some((seq![TypeView::StringT], TypeView::StringT))
    } else if name == "replace"@ && argc == 3 {
        Some((seq![TypeView::StringT, TypeView::StringT, TypeView::StringT], TypeView::StringT))
    } else if name == "startsWith"@ && argc == 2 {
        Some((seq![TypeView::StringT, TypeView::StringT], TypeView::Bool))
    } else if name == "endsWith"@ && argc == 2 {
        Some((seq![TypeView::StringT, TypeView::StringT], TypeView::Bool))
    } else if name == "trim"@ && argc == 1 {
        Some((seq![TypeView::StringT], TypeView::StringT))
    } else if name == "split"@ && argc == 2 {
        Some((seq![TypeView::StringT, TypeView::StringT], array_view(TypeView::StringT)))
    } else {
        None
    }
}

fn static_string(name: &str, argc: usize) -> (r: Option<(Vec<Type>, Type)>)
    ensures
        sig_view(r) == static_string_sig(name@, argc as nat),
{
    if str_eq(name, "length") && argc == 1 {
        Some((types1(Type::StringT), Type::Int))
    } else if str_eq(name, "charAt") && argc == 2 {
        Some((types2(Type::StringT, Type::Int), Type::StringT))
    } else if str_eq(name, "substring") && argc == 2 {
        Some((types2(Type::StringT, Type::Int), Type::StringT))
    } else if str_eq(name, "substring") && argc == 3 {
        Some((types3(Type::StringT, Type::Int, Type::Int), Type::StringT))
    } else if str_eq(name, "indexOf") && argc == 2 {
        Some((types2(Type::StringT, Type::StringT), Type::Int))
    } else if str_eq(name, "indexOf") && argc == 3 {
        Some((types3(Type::StringT, Type::StringT, Type::Int), Type::Int))
    } else if str_eq(name, "contains") && argc == 2 {
        Some((types2(Type::StringT, Type::StringT), Type::Bool))
    } else if str_eq(name, "toUpperCase") && argc == 1 {
        Some((types1(Type::StringT), Type::StringT))
    } else if str_eq(name, "toLowerCase") && argc == 1 {
        Some((types1(Type::StringT), Type::StringT))
    } else if str_eq(name, "replace") && argc == 3 {
        Some((types3(Type::StringT, Type::StringT, Type::StringT), Type::StringT))
    } else if str_eq(name, "startsWith") && argc == 2 {
        Some((types2(Type::StringT, Type::StringT), Type::Bool))
    } else if str_eq(name, "endsWith") && argc == 2 {
        Some((types2(Type::StringT, Type::StringT), Type::Bool))
    } else if str_eq(name, "trim") && argc == 1 {
        Some((types1(Type::StringT), Type::StringT))
    } else if str_eq(name, "split") && argc == 2 {
        Some((types2(Type::StringT, Type::StringT), array_type(Type::StringT)))
    } else {
        None
    }
}

/// The methods of `system.io.File`.
pub open spec fn static_io_file_sig(name: Seq<char>, argc: nat) -> Option<(Seq<TypeView>, TypeView)> {
    if name == "exists"@ && argc == 1 {
        Some((seq![TypeView::StringT], TypeView::Bool))
    } else if name == "open"@ && argc == 1 {
        Some((seq![TypeView::StringT], named_view("system.io.FileHandle"@)))
    } else if name == "open"@ && argc == 2 {
        Some((seq![TypeView::StringT, named_view("system.io.FileMode"@)], named_view("system.io.FileHandle"@)))
    } else if name == "readAllText"@ && argc == 1 {
        Some((seq![TypeView::StringT], TypeView::StringT))
    } else if name == "writeAllText"@ && argc == 2 {
        Some((seq![TypeView::StringT, TypeView::StringT], TypeView::Void))
    } else if name == "glob"@ && argc == 2 {
        Some((seq![TypeView::StringT, TypeView::StringT], array_view(TypeView::StringT)))
    } else {
        None
    }
}

fn static_io_file(name: &str, argc: usize) -> (r: Option<(Vec<Type>, Type)>)
    ensures
        sig_view(r) == static_io_file_sig(name@, argc as nat),
{
    if str_eq(name, "exists") && argc == 1 {
        Some((types1(Type::StringT), Type::Bool))
    } else if str_eq(name, "open") && argc == 1 {
        Some((types1(Type::StringT), named_type("system.io.FileHandle")))
    } else if str_eq(name, "open") && argc == 2 {
        Some((types2(Type::StringT, named_type("system.io.FileMode")), named_type("system.io.FileHandle")))
    } else if str_eq(name, "readAllText") && argc == 1 {
        Some((types1(Type::StringT), Type::StringT))
    } else if str_eq(name, "writeAllText") && argc == 2 {
        Some((types2(Type::StringT, Type::StringT), Type::Void))
    } else if str_eq(name, "glob") && argc == 2 {
        Some((types2(Type::StringT, Type::StringT), array_type(Type::StringT)))
    } else {
        None
    }
}

/// The methods of `system.io.Directory`.
pub open spec fn static_io_directory_sig(name: Seq<char>, argc: nat) -> Option<(Seq<TypeView>, TypeView)> {
    if name == "list"@ && argc == 1 {
        Some((seq![TypeView::StringT], array_view(TypeView::StringT)))
    } else if name == "create"@ && argc == 1 {
        Some((seq![TypeView::StringT], TypeView::Void))
    } else if name == "remove"@ && argc == 1 {
        Some((seq![TypeView::StringT], TypeView::Void))
    } else if name == "exists"@ && argc == 1 {
        Some((seq![TypeView::StringT], TypeView::Bool))
    } else {
        None
    }
}

fn static_io_directory(name: &str, argc: usize) -> (r: Option<(Vec<Type>, Type)>)
    ensures
        sig_view(r) == static_io_directory_sig(name@, argc as nat),
{
    if str_eq(name, "list") && argc == 1 {
        Some((types1(Type::StringT), array_type(Type::StringT)))
    } else if str_eq(name, "create") && argc == 1 {
        Some((types1(Type::StringT), Type::Void))
    } else if str_eq(name, "remove") && argc == 1 {
        Some((types1(Type::StringT), Type::Void))
    } else if str_eq(name, "exists") && argc == 1 {
        Some((types1(Type::StringT), Type::Bool))
    } else {
        None
    }
}

/// The methods of `system.io.Path`.
pub open spec fn static_io_path_sig(name: Seq<char>, argc: nat) -> Option<(Seq<TypeView>, TypeView)> {
    if name == "join"@ && argc == 1 {
        Some((seq![array_view(TypeView::StringT)], TypeView::StringT))
    } else if name == "dirname"@ && argc == 1 {
        Some((seq![TypeView::StringT], TypeView::StringT))
    } else if name == "basename"@ && argc == 1 {
        Some((seq![TypeView::StringT], TypeView::StringT))
    } else if name == "extension"@ && argc == 1 {
        Some((seq![TypeView::StringT], nullable_view(TypeView::StringT)))
    } else if name == "normalize"@ && argc == 1 {
        Some((seq![TypeView::StringT], TypeView::StringT))
    } else {
        None
    }
}

fn static_io_path(name: &str, argc: usize) -> (r: Option<(Vec<Type>, Type)>)
    ensures
        sig_view(r) == static_io_path_sig(name@, argc as nat),
{
    if str_eq(name, "join") && argc == 1 {
        Some((types1(array_type(Type::StringT)), Type::StringT))
    } else if str_eq(name, "dirname") && argc == 1 {
        Some((types1(Type::StringT), Type::StringT))
    } else if str_eq(name, "basename") && argc == 1 {
        Some((types1(Type::StringT), Type::StringT))
    } else if str_eq(name, "extension") && argc == 1 {
        Some((types1(Type::StringT), nullable_type(Type::StringT)))
    } else if str_eq(name, "normalize") && argc == 1 {
        Some((types1(Type::StringT), Type::StringT))
    } else {
        None
    }
}

/// The methods of `system.SecureRandom`.
pub open spec fn static_secure_random_sig(name: Seq<char>, argc: nat) -> Option<(Seq<TypeView>, TypeView)> {
    if name == "nextBytes"@ && argc == 1 {
        Some((seq![array_view(TypeView::Byte)], TypeView::Void))
    } else if name == "nextInt"@ && argc == 0 {
        Some((Seq::empty(), TypeView::Int))
    } else if name == "nextInt"@ && argc == 1 {
        Some((seq![TypeView::Int], TypeView::Int))
    } else {
        None
    }
}

fn static_secure_random(name: &str, argc: usize) -> (r: Option<(Vec<Type>, Type)>)
    ensures
        sig_view(r) == static_secure_random_sig(name@, argc as nat),
{
    if str_eq(name, "nextBytes") && argc == 1 {
        Some((types1(array_type(Type::Byte)), Type::Void))
    } else if str_eq(name, "nextInt") && argc == 0 {
        Some((types0(), Type::Int))
    } else if str_eq(name, "nextInt") && argc == 1 {
        Some((types1(Type::Int), Type::Int))
    } else {
        None
    }
}

/// The methods of `system.Uuid`.
pub open spec fn static_uuid_sig(name: Seq<char>, argc: nat) -> Option<(Seq<TypeView>, TypeView)> {
    if name == "random"@ && argc == 0 {
        Some((Seq::empty(), TypeView::StringT))
    } else {
        None
    }
}

fn static_uuid(name: &str, argc: usize) -> (r: Option<(Vec<Type>, Type)>)
    ensures
        sig_view(r) == static_uuid_sig(name@, argc as nat),
{
    if str_eq(name, "random") && argc == 0 {
        Some((types0(), Type::StringT))
    } else {
        None
    }
}

/// The methods of `system.net.TcpStream`.
pub open spec fn static_net_tcp_stream_sig(name: Seq<char>, argc: nat) -> Option<(Seq<TypeView>, TypeView)> {
    if name == "connect"@ && argc == 2 {
        Some((seq![TypeView::StringT, TypeView::Int], named_view("system.net.TcpStream"@)))
    } else {
        None
    }
}

fn static_net_tcp_stream(name: &str, argc: usize) -> (r: Option<(Vec<Type>, Type)>)
    ensures
        sig_view(r) == static_net_tcp_stream_sig(name@, argc as nat),
{
    if str_eq(name, "connect") && argc == 2 {
        Some((types2(Type::StringT, Type::Int), named_type("system.net.TcpStream")))
    } else {
        None
    }
}

/// The methods of `system.net.Http`.
pub open spec fn static_net_http_sig(name: Seq<char>, argc: nat) -> Option<(Seq<TypeView>, TypeView)> {
    if name == "get"@ && argc == 1 {
        Some((seq![TypeView::StringT], named_view("system.net.HttpResponse"@)))
    } else if name == "post"@ && argc == 2 {
        Some((seq![TypeView::StringT, TypeView::StringT], named_view("system.net.HttpResponse"@)))
    } else {
        None
    }
}

fn static_net_http(name: &str, argc: usize) -> (r: Option<(Vec<Type>, Type)>)
    ensures
        sig_view(r) == static_net_http_sig(name@, argc as nat),
{
    if str_eq(name, "get") && argc == 1 {
        Some((types1(Type::StringT), named_type("system.net.HttpResponse")))
    } else if str_eq(name, "post") && argc == 2 {
        Some((types2(Type::StringT, Type::StringT), named_type("system.net.HttpResponse")))
    } else {
        None
    }
}

/// The methods of `system.thread.Thread`.
pub open spec fn static_thread_thread_sig(name: Seq<char>, argc: nat) -> Option<(Seq<TypeView>, TypeView)> {
    if name == "sleep"@ && argc == 1 {
        Some((seq![TypeView::Int], TypeView::Void))
    } else {
        None
    }
}

fn static_thread_thread(name: &str, argc: usize) -> (r: Option<(Vec<Type>, Type)>)
    ensures
        sig_view(r) == static_thread_thread_sig(name@, argc as nat),
{
    if str_eq(name, "sleep") && argc == 1 {
        Some((types1(Type::Int), Type::Void))
    } else {
        None
    }
}

/// The methods of `system.ps.Process`.
pub open spec fn static_ps_process_sig(name: Seq<char>, argc: nat) -> Option<(Seq<TypeView>, TypeView)> {
    if name == "list"@ && argc == 0 {
        Some((Seq::empty(), array_view(named_view("system.ps.ProcessInfo"@))))
    } else if name == "list"@ && argc == 1 {
        Some((seq![TypeView::Int], array_view(named_view("system.ps.ProcessInfo"@))))
    } else if name == "pid"@ && argc == 0 {
        Some((Seq::empty(), TypeView::Int))
    } else if name == "exit"@ && argc == 1 {
        Some((seq![TypeView::Int], TypeView::Void))
    } else if name == "getCwd"@ && argc == 0 {
        Some((Seq::empty(), TypeView::StringT))
    } else if name == "setCwd"@ && argc == 1 {
        Some((seq![TypeView::StringT], TypeView::Void))
    } else {
        None
    }
}

fn static_ps_process(name: &str, argc: usize) -> (r: Option<(Vec<Type>, Type)>)
    ensures
        sig_view(r) == static_ps_process_sig(name@, argc as nat),
{
    if str_eq(name, "list") && argc == 0 {
        Some((types0(), array_type(named_type("system.ps.ProcessInfo"))))
    } else if str_eq(name, "list") && argc == 1 {
        Some((types1(Type::Int), array_type(named_type("system.ps.ProcessInfo"))))
    } else if str_eq(name, "pid") && argc == 0 {
        Some((types0(), Type::Int))
    } else if str_eq(name, "exit") && argc == 1 {
        Some((types1(Type::Int), Type::Void))
    } else if str_eq(name, "getCwd") && argc == 0 {
        Some((types0(), Type::StringT))
    } else if str_eq(name, "setCwd") && argc == 1 {
        Some((types1(Type::StringT), Type::Void))
    } else {
        None
    }
}

/// The methods of `system.text.Regex`.
pub open spec fn static_text_regex_sig(name: Seq<char>, argc: nat) -> Option<(Seq<TypeView>, TypeView)> {
    if name == "match"@ && argc == 2 {
        Some((seq![TypeView::StringT, TypeView::StringT], TypeView::Bool))
    } else if name == "matchFirst"@ && argc == 2 {
        Some((seq![TypeView::StringT, TypeView::StringT], nullable_view(named_view("system.text.RegexMatch"@))))
    } else if name == "replace"@ && argc == 3 {
        Some((seq![TypeView::StringT, TypeView::StringT, TypeView::StringT], TypeView::StringT))
    } else if name == "split"@ && argc == 2 {
        Some((seq![TypeView::StringT, TypeView::StringT], array_view(TypeView::StringT)))
    } else if name == "escape"@ && argc == 1 {
        Some((seq![TypeView::StringT], TypeView::StringT))
    } else {
        None
    }
}

fn static_text_regex(name: &str, argc: usize) -> (r: Option<(Vec<Type>, Type)>)
    ensures
        sig_view(r) == static_text_regex_sig(name@, argc as nat),
{
    if str_eq(name, "match") && argc == 2 {
        Some((types2(Type::StringT, Type::StringT), Type::Bool))
    } else if str_eq(name, "matchFirst") && argc == 2 {
        Some((types2(Type::StringT, Type::StringT), nullable_type(named_type("system.text.RegexMatch"))))
    } else if str_eq(name, "replace") && argc == 3 {
        Some((types3(Type::StringT, Type::StringT, Type::StringT), Type::StringT))
    } else if str_eq(name, "split") && argc == 2 {
        Some((types2(Type::StringT, Type::StringT), array_type(Type::StringT)))
    } else if str_eq(name, "escape") && argc == 1 {
        Some((types1(Type::StringT), Type::StringT))
    } else {
        None
    }
}

/// The methods of `system.text.Encoding`.
pub open spec fn static_text_encoding_sig(name: Seq<char>, argc: nat) -> Option<(Seq<TypeView>, TypeView)> {
    if name == "encodeUtf8"@ && argc == 1 {
        Some((seq![TypeView::StringT], array_view(TypeView::Byte)))
    } else if name == "decodeUtf8"@ && argc == 1 {
        Some((seq![array_view(TypeView::Byte)], TypeView::StringT))
    } else if name == "base64Encode"@ && argc == 1 {
        Some((seq![array_view(TypeView::Byte)], TypeView::StringT))
    } else if name == "base64Decode"@ && argc == 1 {
        Some((seq![TypeView::StringT], array_view(TypeView::Byte)))
    } else {
        None
    }
}

fn static_text_encoding(name: &str, argc: usize) -> (r: Option<(Vec<Type>, Type)>)
    ensures
        sig_view(r) == static_text_encoding_sig(name@, argc as nat),
{
    if str_eq(name, "encodeUtf8") && argc == 1 {
        Some((types1(Type::StringT), array_type(Type::Byte)))
    } else if str_eq(name, "decodeUtf8") && argc == 1 {
        Some((types1(array_type(Type::Byte)), Type::StringT))
    } else if str_eq(name, "base64Encode") && argc == 1 {
        Some((types1(array_type(Type::Byte)), Type::StringT))
    } else if str_eq(name, "base64Decode") && argc == 1 {
        Some((types1(Type::StringT), array_type(Type::Byte)))
    } else {
        None
    }
}

/// The signature of a static method of a native class. A method of
/// `system.String` counts its receiver as the first argument.
#[verifier::opaque]
pub open spec fn native_static(fqcn: Seq<char>, name: Seq<char>, argc: nat) -> Option<(Seq<TypeView>, TypeView)> {
    if fqcn == "system.In"@ {
        static_in_sig(name, argc)
    } else if fqcn == "system.Int"@ {
        static_int_sig(name, argc)
    } else if fqcn == "system.Float"@ {
        static_float_sig(name, argc)
    } else if fqcn == "system.Bool"@ {
        static_bool_sig(name, argc)
    } else if fqcn == "system.String"@ {
        static_string_sig(name, argc)
    } else if fqcn == "system.io.File"@ {
        static_io_file_sig(name, argc)
    } else if fqcn == "system.io.Directory"@ {
        static_io_directory_sig(name, argc)
    } else if fqcn == "system.io.Path"@ {
        static_io_path_sig(name, argc)
    } else if fqcn == "system.SecureRandom"@ {
        static_secure_random_sig(name, argc)
    } else if fqcn == "system.Uuid"@ {
        static_uuid_sig(name, argc)
    } else if fqcn == "system.Env"@ {
        static_env_sig(name, argc)
    } else if fqcn == "system.net.TcpStream"@ {
        static_net_tcp_stream_sig(name, argc)
    } else if fqcn == "system.net.Http"@ {
        static_net_http_sig(name, argc)
    } else if fqcn == "system.thread.Thread"@ {
        static_thread_thread_sig(name, argc)
    } else if fqcn == "system.ps.Process"@ {
        static_ps_process_sig(name, argc)
    } else if fqcn == "system.text.Regex"@ {
        static_text_regex_sig(name, argc)
    } else if fqcn == "system.text.Encoding"@ {
        static_text_encoding_sig(name, argc)
    } else if fqcn == "system.time.DateTime"@ {
        static_time_date_time_sig(name, argc)
    } else if fqcn == "system.time.TimeZone"@ {
        static_time_time_zone_sig(name, argc)
    } else {
        None
    }
}

pub fn signature(fqcn: &str, name: &str, argc: usize) -> (r: Option<(Vec<Type>, Type)>)
    ensures
        sig_view(r) == native_static(fqcn@, name@, argc as nat),
{
    reveal(native_static);
    if str_eq(fqcn, "system.In") {
        static_in(name, argc)
    } else if str_eq(fqcn, "system.Int") {
        static_int(name, argc)
    } else if str_eq(fqcn, "system.Float") {
        static_float(name, argc)
    } else if str_eq(fqcn, "system.Bool") {
        static_bool(name, argc)
    } else if str_eq(fqcn, "system.String") {
        static_string(name, argc)
    } else if str_eq(fqcn, "system.io.File") {
        static_io_file(name, argc)
    } else if str_eq(fqcn, "system.io.Directory") {
        static_io_directory(name, argc)
    } else if str_eq(fqcn, "system.io.Path") {
        static_io_path(name, argc)
    } else if str_eq(fqcn, "system.SecureRandom") {
        static_secure_random(name, argc)
    } else if str_eq(fqcn, "system.Uuid") {
        static_uuid(name, argc)
    } else if str_eq(fqcn, "system.Env") {
        static_env(name, argc)
    } else if str_eq(fqcn, "system.net.TcpStream") {
        static_net_tcp_stream(name, argc)
    } else if str_eq(fqcn, "system.net.Http") {
        static_net_http(name, argc)
    } else if str_eq(fqcn, "system.thread.Thread") {
        static_thread_thread(name, argc)
    } else if str_eq(fqcn, "system.ps.Process") {
        static_ps_process(name, argc)
    } else if str_eq(fqcn, "system.text.Regex") {
        static_text_regex(name, argc)
    } else if str_eq(fqcn, "system.text.Encoding") {
        static_text_encoding(name, argc)
    } else if str_eq(fqcn, "system.time.DateTime") {
        static_time_date_time(name, argc)
    } else if str_eq(fqcn, "system.time.TimeZone") {
        static_time_time_zone(name, argc)
    } else {
        None
    }
}

} // verus!
