//! The native classes, as far as checking and code generation share them.

use crate::ast::{type_views, Type, TypeView};
use crate::sema::types::opt_type;
use crate::text::{owned, str_eq};
use vstd::prelude::*;

verus! {

pub open spec fn named_view(name: Seq<char>) -> TypeView {
    TypeView::Named(name)
}

pub open spec fn array_view(t: TypeView) -> TypeView {
    TypeView::Array(Box::new(t))
}

/// `t` or `null`.
pub open spec fn nullable_view(t: TypeView) -> TypeView {
    TypeView::Union(seq![t, TypeView::NullT])
}

pub fn named_type(name: &str) -> (r: Type)
    ensures
        r@ == named_view(name@),
{
    Type::Named(owned(name))
}

pub fn array_type(t: Type) -> (r: Type)
    ensures
        r@ == array_view(t@),
{
    Type::Array(Box::new(t))
}

pub fn nullable_type(t: Type) -> (r: Type)
    ensures
        r@ == nullable_view(t@),
{
    Type::Union(types2(t, Type::NullT))
}

pub fn types0() -> (r: Vec<Type>)
    ensures
        type_views(r@) == Seq::<TypeView>::empty(),
{
    let mut out: Vec<Type> = Vec::new();
    assert(type_views(out@) =~= Seq::<TypeView>::empty());
    out
}

pub fn types1(a: Type) -> (r: Vec<Type>)
    ensures
        type_views(r@) == seq![a@],
{
    let mut out: Vec<Type> = Vec::new();
    out.push(a);
    assert(type_views(out@) =~= seq![a@]);
    out
}

pub fn types2(a: Type, b: Type) -> (r: Vec<Type>)
    ensures
        type_views(r@) == seq![a@, b@],
{
    let mut out: Vec<Type> = Vec::new();
    out.push(a);
    out.push(b);
    assert(type_views(out@) =~= seq![a@, b@]);
    out
}

pub fn types3(a: Type, b: Type, c: Type) -> (r: Vec<Type>)
    ensures
        type_views(r@) == seq![a@, b@, c@],
{
    let mut out: Vec<Type> = Vec::new();
    out.push(a);
    out.push(b);
    out.push(c);
    assert(type_views(out@) =~= seq![a@, b@, c@]);
    out
}

pub fn types4(a: Type, b: Type, c: Type, d: Type) -> (r: Vec<Type>)
    ensures
        type_views(r@) == seq![a@, b@, c@, d@],
{
    let mut out: Vec<Type> = Vec::new();
    out.push(a);
    out.push(b);
    out.push(c);
    out.push(d);
    assert(type_views(out@) =~= seq![a@, b@, c@, d@]);
    out
}

/// A signature: parameter types and result type.
pub open spec fn sig_view(o: Option<(Vec<Type>, Type)>) -> Option<(Seq<TypeView>, TypeView)> {
    match o {
        Some((params, ret)) => Some((type_views(params@), ret@)),
        None => None,
    }
}

/// The public fields of the native result classes.
#[verifier::opaque]
pub open spec fn result_field(fqcn: Seq<char>, name: Seq<char>) -> Option<TypeView> {
    if fqcn == "system.net.HttpResponse"@ && name == "statusCode"@ {
        Some(TypeView::Int)
    } else if fqcn == "system.net.HttpResponse"@ && name == "body"@ {
        Some(TypeView::StringT)
    } else if fqcn == "system.net.HttpResponse"@ && name == "headers"@ {
        Some(nullable_view(array_view(TypeView::StringT)))
    } else if fqcn == "system.ps.ProcessInfo"@ && name == "pid"@ {
        Some(TypeView::Int)
    } else if fqcn == "system.ps.ProcessInfo"@ && name == "command"@ {
        Some(TypeView::StringT)
    } else if fqcn == "system.ps.ProcessInfo"@ && name == "args"@ {
        Some(array_view(TypeView::StringT))
    } else if fqcn == "system.ps.ProcessInfo"@ && name == "user"@ {
        Some(nullable_view(TypeView::StringT))
    } else if fqcn == "system.ps.ProcessResult"@ && name == "exitCode"@ {
        Some(TypeView::Int)
    } else if fqcn == "system.ps.ProcessResult"@ && name == "stdout"@ {
        Some(TypeView::StringT)
    } else if fqcn == "system.ps.ProcessResult"@ && name == "stderr"@ {
        Some(TypeView::StringT)
    } else if fqcn == "system.text.RegexMatch"@ && name == "fullMatch"@ {
        Some(TypeView::StringT)
    } else if fqcn == "system.text.RegexMatch"@ && name == "groups"@ {
        Some(array_view(TypeView::StringT))
    } else {
        None
    }
}

pub fn result_field_ty(fqcn: &str, name: &str) -> (r: Option<Type>)
    ensures
        opt_type(r) == result_field(fqcn@, name@),
{
    reveal(result_field);
    if str_eq(fqcn, "system.net.HttpResponse") && str_eq(name, "statusCode") {
        Some(Type::Int)
    } else if str_eq(fqcn, "system.net.HttpResponse") && str_eq(name, "body") {
        Some(Type::StringT)
    } else if str_eq(fqcn, "system.net.HttpResponse") && str_eq(name, "headers") {
        Some(nullable_type(array_type(Type::StringT)))
    } else if str_eq(fqcn, "system.ps.ProcessInfo") && str_eq(name, "pid") {
        Some(Type::Int)
    } else if str_eq(fqcn, "system.ps.ProcessInfo") && str_eq(name, "command") {
        Some(Type::StringT)
    } else if str_eq(fqcn, "system.ps.ProcessInfo") && str_eq(name, "args") {
        Some(array_type(Type::StringT))
    } else if str_eq(fqcn, "system.ps.ProcessInfo") && str_eq(name, "user") {
        Some(nullable_type(Type::StringT))
    } else if str_eq(fqcn, "system.ps.ProcessResult") && str_eq(name, "exitCode") {
        Some(Type::Int)
    } else if str_eq(fqcn, "system.ps.ProcessResult") && str_eq(name, "stdout") {
        Some(Type::StringT)
    } else if str_eq(fqcn, "system.ps.ProcessResult") && str_eq(name, "stderr") {
        Some(Type::StringT)
    } else if str_eq(fqcn, "system.text.RegexMatch") && str_eq(name, "fullMatch") {
        Some(Type::StringT)
    } else if str_eq(fqcn, "system.text.RegexMatch") && str_eq(name, "groups") {
        Some(array_type(Type::StringT))
    } else {
        None
    }
}

/// The place of a mode among the constants of `system.io.FileMode`.
pub open spec fn file_mode_tag(name: Seq<char>) -> Option<i64> {
    if name == "Read"@ {
        Some(0)
    } else if name == "Write"@ {
        Some(1)
    } else if name == "Append"@ {
        Some(2)
    } else if name == "ReadWrite"@ {
        Some(3)
    } else if name == "ReadWriteTruncate"@ {
        Some(4)
    } else if name == "ReadWriteAppend"@ {
        Some(5)
    } else {
        None
    }
}

pub fn file_mode_of(name: &str) -> (r: Option<i64>)
    ensures
        r == file_mode_tag(name@),
{
    if str_eq(name, "Read") {
        Some(0)
    } else if str_eq(name, "Write") {
        Some(1)
    } else if str_eq(name, "Append") {
        Some(2)
    } else if str_eq(name, "ReadWrite") {
        Some(3)
    } else if str_eq(name, "ReadWriteTruncate") {
        Some(4)
    } else if str_eq(name, "ReadWriteAppend") {
        Some(5)
    } else {
        None
    }
}

/// The methods of `system.io.FileHandle`.
pub open spec fn inst_io_file_handle_sig(name: Seq<char>, argc: nat) -> Option<(Seq<TypeView>, TypeView)> {
    if name == "close"@ && argc == 0 {
        Some((Seq::empty(), TypeView::Void))
    } else if name == "read"@ && argc == 3 {
        Some((seq![array_view(TypeView::Byte), TypeView::Int, TypeView::Int], TypeView::Int))
    } else if name == "readLine"@ && argc == 0 {
        Some((Seq::empty(), nullable_view(TypeView::StringT)))
    } else if name == "write"@ && argc == 1 {
        Some((seq![TypeView::StringT], TypeView::Void))
    } else if name == "write"@ && argc == 3 {
        Some((seq![array_view(TypeView::Byte), TypeView::Int, TypeView::Int], TypeView::Void))
    } else if name == "flush"@ && argc == 0 {
        Some((Seq::empty(), TypeView::Void))
    } else {
        None
    }
}

fn inst_io_file_handle(name: &str, argc: usize) -> (r: Option<(Vec<Type>, Type)>)
    ensures
        sig_view(r) == inst_io_file_handle_sig(name@, argc as nat),
{
    if str_eq(name, "close") && argc == 0 {
        Some((types0(), Type::Void))
    } else if str_eq(name, "read") && argc == 3 {
        Some((types3(array_type(Type::Byte), Type::Int, Type::Int), Type::Int))
    } else if str_eq(name, "readLine") && argc == 0 {
        Some((types0(), nullable_type(Type::StringT)))
    } else if str_eq(name, "write") && argc == 1 {
        Some((types1(Type::StringT), Type::Void))
    } else if str_eq(name, "write") && argc == 3 {
        Some((types3(array_type(Type::Byte), Type::Int, Type::Int), Type::Void))
    } else if str_eq(name, "flush") && argc == 0 {
        Some((types0(), Type::Void))
    } else {
        None
    }
}

/// The methods of `system.Random`.
pub open spec fn inst_random_sig(name: Seq<char>, argc: nat) -> Option<(Seq<TypeView>, TypeView)> {
    if name == "nextInt"@ && argc == 0 {
        Some((Seq::empty(), TypeView::Int))
    } else if name == "nextInt"@ && argc == 1 {
        Some((seq![TypeView::Int], TypeView::Int))
    } else if name == "nextFloat"@ && argc == 0 {
        Some((Seq::empty(), TypeView::Float))
    } else {
        None
    }
}

fn inst_random(name: &str, argc: usize) -> (r: Option<(Vec<Type>, Type)>)
    ensures
        sig_view(r) == inst_random_sig(name@, argc as nat),
{
    if str_eq(name, "nextInt") && argc == 0 {
        Some((types0(), Type::Int))
    } else if str_eq(name, "nextInt") && argc == 1 {
        Some((types1(Type::Int), Type::Int))
    } else if str_eq(name, "nextFloat") && argc == 0 {
        Some((types0(), Type::Float))
    } else {
        None
    }
}

/// The methods of `system.net.TcpListener`.
pub open spec fn inst_net_tcp_listener_sig(name: Seq<char>, argc: nat) -> Option<(Seq<TypeView>, TypeView)> {
    if name == "accept"@ && argc == 0 {
        Some((Seq::empty(), named_view("system.net.TcpStream"@)))
    } else if name == "close"@ && argc == 0 {
        Some((Seq::empty(), TypeView::Void))
    } else {
        None
    }
}

fn inst_net_tcp_listener(name: &str, argc: usize) -> (r: Option<(Vec<Type>, Type)>)
    ensures
        sig_view(r) == inst_net_tcp_listener_sig(name@, argc as nat),
{
    if str_eq(name, "accept") && argc == 0 {
        Some((types0(), named_type("system.net.TcpStream")))
    } else if str_eq(name, "close") && argc == 0 {
        Some((types0(), Type::Void))
    } else {
        None
    }
}

/// The methods of `system.net.TcpStream`.
pub open spec fn inst_net_tcp_stream_sig(name: Seq<char>, argc: nat) -> Option<(Seq<TypeView>, TypeView)> {
    if name == "read"@ && argc == 3 {
        Some((seq![array_view(TypeView::Byte), TypeView::Int, TypeView::Int], TypeView::Int))
    } else if name == "write"@ && argc == 3 {
        Some((seq![array_view(TypeView::Byte), TypeView::Int, TypeView::Int], TypeView::Void))
    } else if name == "close"@ && argc == 0 {
        Some((Seq::empty(), TypeView::Void))
    } else {
        None
    }
}

fn inst_net_tcp_stream(name: &str, argc: usize) -> (r: Option<(Vec<Type>, Type)>)
    ensures
        sig_view(r) == inst_net_tcp_stream_sig(name@, argc as nat),
{
    if str_eq(name, "read") && argc == 3 {
        Some((types3(array_type(Type::Byte), Type::Int, Type::Int), Type::Int))
    } else if str_eq(name, "write") && argc == 3 {
        Some((types3(array_type(Type::Byte), Type::Int, Type::Int), Type::Void))
    } else if str_eq(name, "close") && argc == 0 {
        Some((types0(), Type::Void))
    } else {
        None
    }
}

/// The methods of `system.net.UdpSocket`.
pub open spec fn inst_net_udp_socket_sig(name: Seq<char>, argc: nat) -> Option<(Seq<TypeView>, TypeView)> {
    if name == "bind"@ && argc == 2 {
        Some((seq![TypeView::StringT, TypeView::Int], TypeView::Void))
    } else if name == "send"@ && argc == 3 {
        Some((seq![TypeView::StringT, TypeView::Int, array_view(TypeView::Byte)], TypeView::Void))
    } else if name == "receive"@ && argc == 1 {
        Some((seq![array_view(TypeView::Byte)], TypeView::Int))
    } else if name == "close"@ && argc == 0 {
        Some((Seq::empty(), TypeView::Void))
    } else {
        None
    }
}

fn inst_net_udp_socket(name: &str, argc: usize) -> (r: Option<(Vec<Type>, Type)>)
    ensures
        sig_view(r) == inst_net_udp_socket_sig(name@, argc as nat),
{
    if str_eq(name, "bind") && argc == 2 {
        Some((types2(Type::StringT, Type::Int), Type::Void))
    } else if str_eq(name, "send") && argc == 3 {
        Some((types3(Type::StringT, Type::Int, array_type(Type::Byte)), Type::Void))
    } else if str_eq(name, "receive") && argc == 1 {
        Some((types1(array_type(Type::Byte)), Type::Int))
    } else if str_eq(name, "close") && argc == 0 {
        Some((types0(), Type::Void))
    } else {
        None
    }
}

/// The methods of `system.thread.Thread`.
pub open spec fn inst_thread_thread_sig(name: Seq<char>, argc: nat) -> Option<(Seq<TypeView>, TypeView)> {
    if name == "start"@ && argc == 0 {
        Some((Seq::empty(), TypeView::Void))
    } else if name == "join"@ && argc == 0 {
        Some((Seq::empty(), TypeView::Void))
    } else if name == "join"@ && argc == 1 {
        Some((seq![TypeView::Int], TypeView::Bool))
    } else if name == "isAlive"@ && argc == 0 {
        Some((Seq::empty(), TypeView::Bool))
    } else {
        None
    }
}

fn inst_thread_thread(name: &str, argc: usize) -> (r: Option<(Vec<Type>, Type)>)
    ensures
        sig_view(r) == inst_thread_thread_sig(name@, argc as nat),
{
    if str_eq(name, "start") && argc == 0 {
        Some((types0(), Type::Void))
    } else if str_eq(name, "join") && argc == 0 {
        Some((types0(), Type::Void))
    } else if str_eq(name, "join") && argc == 1 {
        Some((types1(Type::Int), Type::Bool))
    } else if str_eq(name, "isAlive") && argc == 0 {
        Some((types0(), Type::Bool))
    } else {
        None
    }
}

/// The methods of `system.thread.Mutex`.
pub open spec fn inst_thread_mutex_sig(name: Seq<char>, argc: nat) -> Option<(Seq<TypeView>, TypeView)> {
    if name == "lock"@ && argc == 0 {
        Some((Seq::empty(), TypeView::Void))
    } else if name == "unlock"@ && argc == 0 {
        Some((Seq::empty(), TypeView::Void))
    } else if name == "tryLock"@ && argc == 0 {
        Some((Seq::empty(), TypeView::Bool))
    } else {
        None
    }
}

fn inst_thread_mutex(name: &str, argc: usize) -> (r: Option<(Vec<Type>, Type)>)
    ensures
        sig_view(r) == inst_thread_mutex_sig(name@, argc as nat),
{
    if str_eq(name, "lock") && argc == 0 {
        Some((types0(), Type::Void))
    } else if str_eq(name, "unlock") && argc == 0 {
        Some((types0(), Type::Void))
    } else if str_eq(name, "tryLock") && argc == 0 {
        Some((types0(), Type::Bool))
    } else {
        None
    }
}

/// The methods of `system.thread.Semaphore`.
pub open spec fn inst_thread_semaphore_sig(name: Seq<char>, argc: nat) -> Option<(Seq<TypeView>, TypeView)> {
    if name == "acquire"@ && argc == 0 {
        Some((Seq::empty(), TypeView::Void))
    } else if name == "release"@ && argc == 0 {
        Some((Seq::empty(), TypeView::Void))
    } else if name == "tryAcquire"@ && argc == 0 {
        Some((Seq::empty(), TypeView::Bool))
    } else {
        None
    }
}

fn inst_thread_semaphore(name: &str, argc: usize) -> (r: Option<(Vec<Type>, Type)>)
    ensures
        sig_view(r) == inst_thread_semaphore_sig(name@, argc as nat),
{
    if str_eq(name, "acquire") && argc == 0 {
        Some((types0(), Type::Void))
    } else if str_eq(name, "release") && argc == 0 {
        Some((types0(), Type::Void))
    } else if str_eq(name, "tryAcquire") && argc == 0 {
        Some((types0(), Type::Bool))
    } else {
        None
    }
}

/// The methods of `system.time.DateTime`.
pub open spec fn inst_time_date_time_sig(name: Seq<char>, argc: nat) -> Option<(Seq<TypeView>, TypeView)> {
    if name == "getYear"@ && argc == 0 {
        Some((Seq::empty(), TypeView::Int))
    } else if name == "getMonth"@ && argc == 0 {
        Some((Seq::empty(), TypeView::Int))
    } else if name == "getDay"@ && argc == 0 {
        Some((Seq::empty(), TypeView::Int))
    } else if name == "getHour"@ && argc == 0 {
        Some((Seq::empty(), TypeView::Int))
    } else if name == "getMinute"@ && argc == 0 {
        Some((Seq::empty(), TypeView::Int))
    } else if name == "getSecond"@ && argc == 0 {
        Some((Seq::empty(), TypeView::Int))
    } else if name == "getTimeZone"@ && argc == 0 {
        Some((Seq::empty(), named_view("system.time.TimeZone"@)))
    } else if name == "withTimeZone"@ && argc == 1 {
        Some((seq![named_view("system.time.TimeZone"@)], named_view("system.time.DateTime"@)))
    } else if name == "toUtc"@ && argc == 0 {
        Some((Seq::empty(), named_view("system.time.DateTime"@)))
    } else if name == "format"@ && argc == 1 {
        Some((seq![TypeView::StringT], TypeView::StringT))
    } else {
        None
    }
}

fn inst_time_date_time(name: &str, argc: usize) -> (r: Option<(Vec<Type>, Type)>)
    ensures
        sig_view(r) == inst_time_date_time_sig(name@, argc as nat),
{
    if str_eq(name, "getYear") && argc == 0 {
        Some((types0(), Type::Int))
    } else if str_eq(name, "getMonth") && argc == 0 {
        Some((types0(), Type::Int))
    } else if str_eq(name, "getDay") && argc == 0 {
        Some((types0(), Type::Int))
    } else if str_eq(name, "getHour") && argc == 0 {
        Some((types0(), Type::Int))
    } else if str_eq(name, "getMinute") && argc == 0 {
        Some((types0(), Type::Int))
    } else if str_eq(name, "getSecond") && argc == 0 {
        Some((types0(), Type::Int))
    } else if str_eq(name, "getTimeZone") && argc == 0 {
        Some((types0(), named_type("system.time.TimeZone")))
    } else if str_eq(name, "withTimeZone") && argc == 1 {
        Some((types1(named_type("system.time.TimeZone")), named_type("system.time.DateTime")))
    } else if str_eq(name, "toUtc") && argc == 0 {
        Some((types0(), named_type("system.time.DateTime")))
    } else if str_eq(name, "format") && argc == 1 {
        Some((types1(Type::StringT), Type::StringT))
    } else {
        None
    }
}

/// The methods of `system.time.TimeZone`.
pub open spec fn inst_time_time_zone_sig(name: Seq<char>, argc: nat) -> Option<(Seq<TypeView>, TypeView)> {
    if name == "getId"@ && argc == 0 {
        Some((Seq::empty(), TypeView::StringT))
    } else if name == "getOffsetMinutes"@ && argc == 1 {
        Some((seq![named_view("system.time.DateTime"@)], TypeView::Int))
    } else {
        None
    }
}

fn inst_time_time_zone(name: &str, argc: usize) -> (r: Option<(Vec<Type>, Type)>)
    ensures
        sig_view(r) == inst_time_time_zone_sig(name@, argc as nat),
{
    if str_eq(name, "getId") && argc == 0 {
        Some((types0(), Type::StringT))
    } else if str_eq(name, "getOffsetMinutes") && argc == 1 {
        Some((types1(named_type("system.time.DateTime")), Type::Int))
    } else {
        None
    }
}

/// The signature of a method of a native instance class.
#[verifier::opaque]
pub open spec fn instance_sig(fqcn: Seq<char>, name: Seq<char>, argc: nat) -> Option<(Seq<TypeView>, TypeView)> {
    if fqcn == "system.io.FileHandle"@ {
        inst_io_file_handle_sig(name, argc)
    } else if fqcn == "system.Random"@ {
        inst_random_sig(name, argc)
    } else if fqcn == "system.net.TcpListener"@ {
        inst_net_tcp_listener_sig(name, argc)
    } else if fqcn == "system.net.TcpStream"@ {
        inst_net_tcp_stream_sig(name, argc)
    } else if fqcn == "system.net.UdpSocket"@ {
        inst_net_udp_socket_sig(name, argc)
    } else if fqcn == "system.thread.Thread"@ {
        inst_thread_thread_sig(name, argc)
    } else if fqcn == "system.thread.Mutex"@ {
        inst_thread_mutex_sig(name, argc)
    } else if fqcn == "system.thread.Semaphore"@ {
        inst_thread_semaphore_sig(name, argc)
    } else if fqcn == "system.time.DateTime"@ {
        inst_time_date_time_sig(name, argc)
    } else if fqcn == "system.time.TimeZone"@ {
        inst_time_time_zone_sig(name, argc)
    } else {
        None
    }
}

pub fn instance_lookup(fqcn: &str, name: &str, argc: usize) -> (r: Option<(Vec<Type>, Type)>)
    ensures
        sig_view(r) == instance_sig(fqcn@, name@, argc as nat),
{
    reveal(instance_sig);
    if str_eq(fqcn, "system.io.FileHandle") {
        inst_io_file_handle(name, argc)
    } else if str_eq(fqcn, "system.Random") {
        inst_random(name, argc)
    } else if str_eq(fqcn, "system.net.TcpListener") {
        inst_net_tcp_listener(name, argc)
    } else if str_eq(fqcn, "system.net.TcpStream") {
        inst_net_tcp_stream(name, argc)
    } else if str_eq(fqcn, "system.net.UdpSocket") {
        inst_net_udp_socket(name, argc)
    } else if str_eq(fqcn, "system.thread.Thread") {
        inst_thread_thread(name, argc)
    } else if str_eq(fqcn, "system.thread.Mutex") {
        inst_thread_mutex(name, argc)
    } else if str_eq(fqcn, "system.thread.Semaphore") {
        inst_thread_semaphore(name, argc)
    } else if str_eq(fqcn, "system.time.DateTime") {
        inst_time_date_time(name, argc)
    } else if str_eq(fqcn, "system.time.TimeZone") {
        inst_time_time_zone(name, argc)
    } else {
        None
    }
}

/// The methods of `system.Env`.
pub open spec fn static_env_sig(name: Seq<char>, argc: nat) -> Option<(Seq<TypeView>, TypeView)> {
    if name == "get"@ && argc == 1 {
        Some((seq![TypeView::StringT], nullable_view(TypeView::StringT)))
    } else if name == "set"@ && argc == 2 {
        Some((seq![TypeView::StringT, TypeView::StringT], TypeView::Void))
    } else if name == "remove"@ && argc == 1 {
        Some((seq![TypeView::StringT], TypeView::Void))
    } else if name == "list"@ && argc == 0 {
        Some((Seq::empty(), array_view(TypeView::StringT)))
    } else {
        None
    }
}

pub(crate) fn static_env(name: &str, argc: usize) -> (r: Option<(Vec<Type>, Type)>)
    ensures
        sig_view(r) == static_env_sig(name@, argc as nat),
{
    if str_eq(name, "get") && argc == 1 {
        Some((types1(Type::StringT), nullable_type(Type::StringT)))
    } else if str_eq(name, "set") && argc == 2 {
        Some((types2(Type::StringT, Type::StringT), Type::Void))
    } else if str_eq(name, "remove") && argc == 1 {
        Some((types1(Type::StringT), Type::Void))
    } else if str_eq(name, "list") && argc == 0 {
        Some((types0(), array_type(Type::StringT)))
    } else {
        None
    }
}

/// The methods of `system.time.DateTime`.
pub open spec fn static_time_date_time_sig(name: Seq<char>, argc: nat) -> Option<(Seq<TypeView>, TypeView)> {
    if name == "now"@ && argc == 0 {
        Some((Seq::empty(), named_view("system.time.DateTime"@)))
    } else if name == "now"@ && argc == 1 {
        Some((seq![named_view("system.time.TimeZone"@)], named_view("system.time.DateTime"@)))
    } else if name == "parse"@ && argc == 1 {
        Some((seq![TypeView::StringT], named_view("system.time.DateTime"@)))
    } else {
        None
    }
}

pub(crate) fn static_time_date_time(name: &str, argc: usize) -> (r: Option<(Vec<Type>, Type)>)
    ensures
        sig_view(r) == static_time_date_time_sig(name@, argc as nat),
{
    if str_eq(name, "now") && argc == 0 {
        Some((types0(), named_type("system.time.DateTime")))
    } else if str_eq(name, "now") && argc == 1 {
        Some((types1(named_type("system.time.TimeZone")), named_type("system.time.DateTime")))
    } else if str_eq(name, "parse") && argc == 1 {
        Some((types1(Type::StringT), named_type("system.time.DateTime")))
    } else {
        None
    }
}

/// The methods of `system.time.TimeZone`.
pub open spec fn static_time_time_zone_sig(name: Seq<char>, argc: nat) -> Option<(Seq<TypeView>, TypeView)> {
    if name == "getDefault"@ && argc == 0 {
        Some((Seq::empty(), named_view("system.time.TimeZone"@)))
    } else if name == "get"@ && argc == 1 {
        Some((seq![TypeView::StringT], named_view("system.time.TimeZone"@)))
    } else {
        None
    }
}

pub(crate) fn static_time_time_zone(name: &str, argc: usize) -> (r: Option<(Vec<Type>, Type)>)
    ensures
        sig_view(r) == static_time_time_zone_sig(name@, argc as nat),
{
    if str_eq(name, "getDefault") && argc == 0 {
        Some((types0(), named_type("system.time.TimeZone")))
    } else if str_eq(name, "get") && argc == 1 {
        Some((types1(Type::StringT), named_type("system.time.TimeZone")))
    } else {
        None
    }
}

} // verus!
