use nlvm::ast::Type;
use nlvm::codegen::stdlib::{
    ctor_param_types, enum_const_value, instance_signature, is_printlike, is_stdlib_class, signature,
};
use nlvm::codegen::type_desc::method_descriptor;
use nlvm::native::{instance_lookup, result_field_ty};
use nlvm::sema::stdlib::{enum_const_ty, is_native_instance, lookup, throws};
use nlvm::sema::types::display;

fn written(sig: Option<(Vec<Type>, Type)>) -> String {
    match sig {
        Some((params, result)) => method_descriptor(&params, &result),
        None => "none".to_string(),
    }
}

#[test]
fn checked_static_signatures() {
    let rows = [
        ("system.Out", "print", 1, "(string|int|float|bool) -> void"),
        ("system.Out", "println", 1, "(string|int|float|bool) -> void"),
        ("system.Err", "print", 1, "(string|int|float|bool) -> void"),
        ("system.Err", "println", 1, "(string|int|float|bool) -> void"),
        ("system.In", "readLine", 0, "() -> string|null"),
        ("system.Int", "parse", 1, "(string) -> int"),
        ("system.Int", "tryParse", 1, "(string) -> int|null"),
        ("system.Int", "toString", 1, "(int) -> string"),
        ("system.Float", "parse", 1, "(string) -> float"),
        ("system.Float", "tryParse", 1, "(string) -> float|null"),
        ("system.Float", "toString", 1, "(float) -> string"),
        ("system.Bool", "parse", 1, "(string) -> bool"),
        ("system.Bool", "tryParse", 1, "(string) -> bool|null"),
        ("system.Bool", "toString", 1, "(bool) -> string"),
        ("system.String", "length", 1, "(string) -> int"),
        ("system.String", "charAt", 2, "(string, int) -> string"),
        ("system.String", "substring", 2, "(string, int) -> string"),
        ("system.String", "substring", 3, "(string, int, int) -> string"),
        ("system.String", "indexOf", 2, "(string, string) -> int"),
        ("system.String", "indexOf", 3, "(string, string, int) -> int"),
        ("system.String", "contains", 2, "(string, string) -> bool"),
        ("system.String", "toUpperCase", 1, "(string) -> string"),
        ("system.String", "toLowerCase", 1, "(string) -> string"),
        ("system.String", "replace", 3, "(string, string, string) -> string"),
        ("system.String", "startsWith", 2, "(string, string) -> bool"),
        ("system.String", "endsWith", 2, "(string, string) -> bool"),
        ("system.String", "trim", 1, "(string) -> string"),
        ("system.String", "split", 2, "(string, string) -> string[]"),
        ("system.io.File", "exists", 1, "(string) -> bool"),
        ("system.io.File", "open", 1, "(string) -> system.io.FileHandle"),
        ("system.io.File", "open", 2, "(string, system.io.FileMode) -> system.io.FileHandle"),
        ("system.io.File", "readAllText", 1, "(string) -> string"),
        ("system.io.File", "writeAllText", 2, "(string, string) -> void"),
        ("system.io.File", "glob", 2, "(string, string) -> string[]"),
        ("system.io.Directory", "list", 1, "(string) -> string[]"),
        ("system.io.Directory", "create", 1, "(string) -> void"),
        ("system.io.Directory", "remove", 1, "(string) -> void"),
        ("system.io.Directory", "exists", 1, "(string) -> bool"),
        ("system.io.Path", "join", 1, "(string[]) -> string"),
        ("system.io.Path", "dirname", 1, "(string) -> string"),
        ("system.io.Path", "basename", 1, "(string) -> string"),
        ("system.io.Path", "extension", 1, "(string) -> string|null"),
        ("system.io.Path", "normalize", 1, "(string) -> string"),
        ("system.SecureRandom", "nextBytes", 1, "(byte[]) -> void"),
        ("system.SecureRandom", "nextInt", 0, "() -> int"),
        ("system.SecureRandom", "nextInt", 1, "(int) -> int"),
        ("system.Uuid", "random", 0, "() -> string"),
        ("system.net.TcpStream", "connect", 2, "(string, int) -> system.net.TcpStream"),
        ("system.net.Http", "get", 1, "(string) -> system.net.HttpResponse"),
        ("system.net.Http", "post", 2, "(string, string) -> system.net.HttpResponse"),
        ("system.thread.Thread", "sleep", 1, "(int) -> void"),
        ("system.ps.Process", "run", 1, "(string|string[]) -> system.ps.ProcessResult"),
        ("system.ps.Process", "list", 0, "() -> system.ps.ProcessInfo[]"),
        ("system.ps.Process", "list", 1, "(int) -> system.ps.ProcessInfo[]"),
        ("system.ps.Process", "pid", 0, "() -> int"),
        ("system.ps.Process", "exit", 1, "(int) -> void"),
        ("system.ps.Process", "getCwd", 0, "() -> string"),
        ("system.ps.Process", "setCwd", 1, "(string) -> void"),
        ("system.text.Regex", "match", 2, "(string, string) -> bool"),
        ("system.text.Regex", "matchFirst", 2, "(string, string) -> system.text.RegexMatch|null"),
        ("system.text.Regex", "replace", 3, "(string, string, string) -> string"),
        ("system.text.Regex", "split", 2, "(string, string) -> string[]"),
        ("system.text.Regex", "escape", 1, "(string) -> string"),
        ("system.text.Encoding", "encodeUtf8", 1, "(string) -> byte[]"),
        ("system.text.Encoding", "decodeUtf8", 1, "(byte[]) -> string"),
        ("system.text.Encoding", "base64Encode", 1, "(byte[]) -> string"),
        ("system.text.Encoding", "base64Decode", 1, "(string) -> byte[]"),
        ("system.Env", "get", 1, "(string) -> string|null"),
        ("system.Env", "set", 2, "(string, string) -> void"),
        ("system.Env", "remove", 1, "(string) -> void"),
        ("system.Env", "list", 0, "() -> string[]"),
        ("system.time.DateTime", "now", 0, "() -> system.time.DateTime"),
        ("system.time.DateTime", "now", 1, "(system.time.TimeZone) -> system.time.DateTime"),
        ("system.time.DateTime", "parse", 1, "(string) -> system.time.DateTime"),
        ("system.time.TimeZone", "getDefault", 0, "() -> system.time.TimeZone"),
        ("system.time.TimeZone", "get", 1, "(string) -> system.time.TimeZone"),
    ];
    for (class, name, argc, want) in rows {
        assert_eq!(written(lookup(class, name, argc)), want, "{}.{}", class, name);
        assert_eq!(written(lookup(class, name, argc + 7)), "none");
    }
}

#[test]
fn checked_instance_signatures() {
    let rows = [
        ("system.io.FileHandle", "close", 0, "() -> void"),
        ("system.io.FileHandle", "read", 3, "(byte[], int, int) -> int"),
        ("system.io.FileHandle", "readLine", 0, "() -> string|null"),
        ("system.io.FileHandle", "write", 1, "(string) -> void"),
        ("system.io.FileHandle", "write", 3, "(byte[], int, int) -> void"),
        ("system.io.FileHandle", "flush", 0, "() -> void"),
        ("system.Random", "nextInt", 0, "() -> int"),
        ("system.Random", "nextInt", 1, "(int) -> int"),
        ("system.Random", "nextFloat", 0, "() -> float"),
        ("system.net.TcpListener", "accept", 0, "() -> system.net.TcpStream"),
        ("system.net.TcpListener", "close", 0, "() -> void"),
        ("system.net.TcpStream", "read", 3, "(byte[], int, int) -> int"),
        ("system.net.TcpStream", "write", 3, "(byte[], int, int) -> void"),
        ("system.net.TcpStream", "close", 0, "() -> void"),
        ("system.net.UdpSocket", "bind", 2, "(string, int) -> void"),
        ("system.net.UdpSocket", "send", 3, "(string, int, byte[]) -> void"),
        ("system.net.UdpSocket", "receive", 1, "(byte[]) -> int"),
        ("system.net.UdpSocket", "close", 0, "() -> void"),
        ("system.thread.Thread", "start", 0, "() -> void"),
        ("system.thread.Thread", "join", 0, "() -> void"),
        ("system.thread.Thread", "join", 1, "(int) -> bool"),
        ("system.thread.Thread", "isAlive", 0, "() -> bool"),
        ("system.thread.Mutex", "lock", 0, "() -> void"),
        ("system.thread.Mutex", "unlock", 0, "() -> void"),
        ("system.thread.Mutex", "tryLock", 0, "() -> bool"),
        ("system.thread.Semaphore", "acquire", 0, "() -> void"),
        ("system.thread.Semaphore", "release", 0, "() -> void"),
        ("system.thread.Semaphore", "tryAcquire", 0, "() -> bool"),
        ("system.time.DateTime", "getYear", 0, "() -> int"),
        ("system.time.DateTime", "getMonth", 0, "() -> int"),
        ("system.time.DateTime", "getDay", 0, "() -> int"),
        ("system.time.DateTime", "getHour", 0, "() -> int"),
        ("system.time.DateTime", "getMinute", 0, "() -> int"),
        ("system.time.DateTime", "getSecond", 0, "() -> int"),
        ("system.time.DateTime", "getTimeZone", 0, "() -> system.time.TimeZone"),
        ("system.time.DateTime", "withTimeZone", 1, "(system.time.TimeZone) -> system.time.DateTime"),
        ("system.time.DateTime", "toUtc", 0, "() -> system.time.DateTime"),
        ("system.time.DateTime", "format", 1, "(string) -> string"),
        ("system.time.TimeZone", "getId", 0, "() -> string"),
        ("system.time.TimeZone", "getOffsetMinutes", 1, "(system.time.DateTime) -> int"),
    ];
    for (class, name, argc, want) in rows {
        assert_eq!(written(instance_lookup(class, name, argc)), want, "{}.{}", class, name);
        assert_eq!(written(instance_lookup(class, name, argc + 7)), "none");
    }
}

#[test]
fn compiled_static_signatures() {
    let rows = [
        ("system.In", "readLine", 0, "() -> string|null"),
        ("system.Int", "parse", 1, "(string) -> int"),
        ("system.Int", "tryParse", 1, "(string) -> int|null"),
        ("system.Int", "toString", 1, "(int) -> string"),
        ("system.Float", "parse", 1, "(string) -> float"),
        ("system.Float", "tryParse", 1, "(string) -> float|null"),
        ("system.Float", "toString", 1, "(float) -> string"),
        ("system.Bool", "parse", 1, "(string) -> bool"),
        ("system.Bool", "tryParse", 1, "(string) -> bool|null"),
        ("system.Bool", "toString", 1, "(bool) -> string"),
        ("system.String", "length", 1, "(string) -> int"),
        ("system.String", "charAt", 2, "(string, int) -> string"),
        ("system.String", "substring", 2, "(string, int) -> string"),
        ("system.String", "substring", 3, "(string, int, int) -> string"),
        ("system.String", "indexOf", 2, "(string, string) -> int"),
        ("system.String", "indexOf", 3, "(string, string, int) -> int"),
        ("system.String", "contains", 2, "(string, string) -> bool"),
        ("system.String", "toUpperCase", 1, "(string) -> string"),
        ("system.String", "toLowerCase", 1, "(string) -> string"),
        ("system.String", "replace", 3, "(string, string, string) -> string"),
        ("system.String", "startsWith", 2, "(string, string) -> bool"),
        ("system.String", "endsWith", 2, "(string, string) -> bool"),
        ("system.String", "trim", 1, "(string) -> string"),
        ("system.String", "split", 2, "(string, string) -> string[]"),
        ("system.io.File", "exists", 1, "(string) -> bool"),
        ("system.io.File", "open", 1, "(string) -> system.io.FileHandle"),
        ("system.io.File", "open", 2, "(string, system.io.FileMode) -> system.io.FileHandle"),
        ("system.io.File", "readAllText", 1, "(string) -> string"),
        ("system.io.File", "writeAllText", 2, "(string, string) -> void"),
        ("system.io.File", "glob", 2, "(string, string) -> string[]"),
        ("system.io.Directory", "list", 1, "(string) -> string[]"),
        ("system.io.Directory", "create", 1, "(string) -> void"),
        ("system.io.Directory", "remove", 1, "(string) -> void"),
        ("system.io.Directory", "exists", 1, "(string) -> bool"),
        ("system.io.Path", "join", 1, "(string[]) -> string"),
        ("system.io.Path", "dirname", 1, "(string) -> string"),
        ("system.io.Path", "basename", 1, "(string) -> string"),
        ("system.io.Path", "extension", 1, "(string) -> string|null"),
        ("system.io.Path", "normalize", 1, "(string) -> string"),
        ("system.SecureRandom", "nextBytes", 1, "(byte[]) -> void"),
        ("system.SecureRandom", "nextInt", 0, "() -> int"),
        ("system.SecureRandom", "nextInt", 1, "(int) -> int"),
        ("system.Uuid", "random", 0, "() -> string"),
        ("system.Env", "get", 1, "(string) -> string|null"),
        ("system.Env", "set", 2, "(string, string) -> void"),
        ("system.Env", "remove", 1, "(string) -> void"),
        ("system.Env", "list", 0, "() -> string[]"),
        ("system.net.TcpStream", "connect", 2, "(string, int) -> system.net.TcpStream"),
        ("system.net.Http", "get", 1, "(string) -> system.net.HttpResponse"),
        ("system.net.Http", "post", 2, "(string, string) -> system.net.HttpResponse"),
        ("system.thread.Thread", "sleep", 1, "(int) -> void"),
        ("system.ps.Process", "list", 0, "() -> system.ps.ProcessInfo[]"),
        ("system.ps.Process", "list", 1, "(int) -> system.ps.ProcessInfo[]"),
        ("system.ps.Process", "pid", 0, "() -> int"),
        ("system.ps.Process", "exit", 1, "(int) -> void"),
        ("system.ps.Process", "getCwd", 0, "() -> string"),
        ("system.ps.Process", "setCwd", 1, "(string) -> void"),
        ("system.text.Regex", "match", 2, "(string, string) -> bool"),
        ("system.text.Regex", "matchFirst", 2, "(string, string) -> system.text.RegexMatch|null"),
        ("system.text.Regex", "replace", 3, "(string, string, string) -> string"),
        ("system.text.Regex", "split", 2, "(string, string) -> string[]"),
        ("system.text.Regex", "escape", 1, "(string) -> string"),
        ("system.text.Encoding", "encodeUtf8", 1, "(string) -> byte[]"),
        ("system.text.Encoding", "decodeUtf8", 1, "(byte[]) -> string"),
        ("system.text.Encoding", "base64Encode", 1, "(byte[]) -> string"),
        ("system.text.Encoding", "base64Decode", 1, "(string) -> byte[]"),
        ("system.time.DateTime", "now", 0, "() -> system.time.DateTime"),
        ("system.time.DateTime", "now", 1, "(system.time.TimeZone) -> system.time.DateTime"),
        ("system.time.DateTime", "parse", 1, "(string) -> system.time.DateTime"),
        ("system.time.TimeZone", "getDefault", 0, "() -> system.time.TimeZone"),
        ("system.time.TimeZone", "get", 1, "(string) -> system.time.TimeZone"),
    ];
    for (class, name, argc, want) in rows {
        assert_eq!(written(signature(class, name, argc)), want, "{}.{}", class, name);
        assert_eq!(written(signature(class, name, argc + 7)), "none");
    }
}

#[test]
fn compiled_instance_signatures() {
    let rows = [
        ("system.io.FileHandle", "close", 0, "() -> void"),
        ("system.io.FileHandle", "read", 3, "(byte[], int, int) -> int"),
        ("system.io.FileHandle", "readLine", 0, "() -> string|null"),
        ("system.io.FileHandle", "write", 1, "(string) -> void"),
        ("system.io.FileHandle", "write", 3, "(byte[], int, int) -> void"),
        ("system.io.FileHandle", "flush", 0, "() -> void"),
        ("system.Random", "nextInt", 0, "() -> int"),
        ("system.Random", "nextInt", 1, "(int) -> int"),
        ("system.Random", "nextFloat", 0, "() -> float"),
        ("system.net.TcpListener", "accept", 0, "() -> system.net.TcpStream"),
        ("system.net.TcpListener", "close", 0, "() -> void"),
        ("system.net.TcpStream", "read", 3, "(byte[], int, int) -> int"),
        ("system.net.TcpStream", "write", 3, "(byte[], int, int) -> void"),
        ("system.net.TcpStream", "close", 0, "() -> void"),
        ("system.net.UdpSocket", "bind", 2, "(string, int) -> void"),
        ("system.net.UdpSocket", "send", 3, "(string, int, byte[]) -> void"),
        ("system.net.UdpSocket", "receive", 1, "(byte[]) -> int"),
        ("system.net.UdpSocket", "close", 0, "() -> void"),
        ("system.thread.Thread", "start", 0, "() -> void"),
        ("system.thread.Thread", "join", 0, "() -> void"),
        ("system.thread.Thread", "join", 1, "(int) -> bool"),
        ("system.thread.Thread", "isAlive", 0, "() -> bool"),
        ("system.thread.Mutex", "lock", 0, "() -> void"),
        ("system.thread.Mutex", "unlock", 0, "() -> void"),
        ("system.thread.Mutex", "tryLock", 0, "() -> bool"),
        ("system.thread.Semaphore", "acquire", 0, "() -> void"),
        ("system.thread.Semaphore", "release", 0, "() -> void"),
        ("system.thread.Semaphore", "tryAcquire", 0, "() -> bool"),
        ("system.time.DateTime", "getYear", 0, "() -> int"),
        ("system.time.DateTime", "getMonth", 0, "() -> int"),
        ("system.time.DateTime", "getDay", 0, "() -> int"),
        ("system.time.DateTime", "getHour", 0, "() -> int"),
        ("system.time.DateTime", "getMinute", 0, "() -> int"),
        ("system.time.DateTime", "getSecond", 0, "() -> int"),
        ("system.time.DateTime", "getTimeZone", 0, "() -> system.time.TimeZone"),
        ("system.time.DateTime", "withTimeZone", 1, "(system.time.TimeZone) -> system.time.DateTime"),
        ("system.time.DateTime", "toUtc", 0, "() -> system.time.DateTime"),
        ("system.time.DateTime", "format", 1, "(string) -> string"),
        ("system.time.TimeZone", "getId", 0, "() -> string"),
        ("system.time.TimeZone", "getOffsetMinutes", 1, "(system.time.DateTime) -> int"),
    ];
    for (class, name, argc, want) in rows {
        assert_eq!(written(instance_signature(class, name, argc)), want, "{}.{}", class, name);
        assert_eq!(written(instance_signature(class, name, argc + 7)), "none");
    }
}

#[test]
fn constructors_of_native_classes() {
    let rows: Vec<(&str, usize, Vec<&str>)> = vec![
        ("system.Random", 0, vec![]),
        ("system.Random", 1, vec!["int"]),
        ("system.net.TcpListener", 2, vec!["string", "int"]),
        ("system.net.UdpSocket", 0, vec![]),
        ("system.thread.Thread", 1, vec!["void"]),
        ("system.thread.Mutex", 0, vec![]),
        ("system.thread.Semaphore", 1, vec!["int"]),
    ];
    for (class, argc, want) in rows {
        let params = ctor_param_types(class, argc).unwrap();
        let shown: Vec<String> = params.iter().map(display).collect();
        assert_eq!(shown, want, "{}", class);
    }
    assert!(ctor_param_types("system.Random", 2).is_none());
    assert!(ctor_param_types("t.A", 0).is_none());
}

#[test]
fn fields_of_native_results() {
    let rows = [
        ("system.net.HttpResponse", "statusCode", "int"),
        ("system.net.HttpResponse", "body", "string"),
        ("system.net.HttpResponse", "headers", "string[]|null"),
        ("system.ps.ProcessInfo", "pid", "int"),
        ("system.ps.ProcessInfo", "command", "string"),
        ("system.ps.ProcessInfo", "args", "string[]"),
        ("system.ps.ProcessInfo", "user", "string|null"),
        ("system.ps.ProcessResult", "exitCode", "int"),
        ("system.ps.ProcessResult", "stdout", "string"),
        ("system.ps.ProcessResult", "stderr", "string"),
        ("system.text.RegexMatch", "fullMatch", "string"),
        ("system.text.RegexMatch", "groups", "string[]"),
    ];
    for (class, name, want) in rows {
        assert_eq!(result_field_ty(class, name).map(|t| display(&t)), Some(want.to_string()));
    }
    assert!(result_field_ty("system.net.HttpResponse", "pid").is_none());
}

#[test]
fn exceptions_of_native_methods() {
    let rows: Vec<(&str, &str, Vec<&str>)> = vec![
        ("system.io.File", "open", vec!["FileNotFoundException"]),
        ("system.io.File", "readAllText", vec!["FileNotFoundException", "IOException"]),
        ("system.io.File", "writeAllText", vec!["IOException"]),
        ("system.io.File", "glob", vec!["IOException"]),
        ("system.io.Directory", "list", vec!["IOException"]),
        ("system.io.Directory", "create", vec!["IOException"]),
        ("system.io.Directory", "remove", vec!["IOException"]),
        ("system.io.FileHandle", "read", vec!["IOException"]),
        ("system.io.FileHandle", "readLine", vec!["IOException"]),
        ("system.io.FileHandle", "write", vec!["IOException"]),
        ("system.io.FileHandle", "flush", vec!["IOException"]),
        ("system.net.TcpListener", "construct", vec!["IOException"]),
        ("system.net.TcpListener", "accept", vec!["IOException"]),
        ("system.net.TcpStream", "connect", vec!["IOException"]),
        ("system.net.TcpStream", "read", vec!["IOException"]),
        ("system.net.TcpStream", "write", vec!["IOException"]),
        ("system.net.UdpSocket", "bind", vec!["IOException"]),
        ("system.net.UdpSocket", "send", vec!["IOException"]),
        ("system.net.UdpSocket", "receive", vec!["IOException"]),
        ("system.net.Http", "get", vec!["IOException"]),
        ("system.net.Http", "post", vec!["IOException"]),
        ("system.thread.Thread", "join", vec!["InterruptedException"]),
        ("system.thread.Thread", "sleep", vec!["InterruptedException"]),
        ("system.ps.Process", "run", vec!["IOException"]),
        ("system.ps.Process", "setCwd", vec!["IOException"]),
        ("system.text.Encoding", "base64Decode", vec!["FormatException"]),
    ];
    for (class, name, want) in rows {
        assert_eq!(throws(class, name), want, "{}.{}", class, name);
    }
    assert!(throws("system.Out", "print").is_empty());
}

#[test]
fn file_modes_are_numbered_in_order() {
    let modes = ["Read", "Write", "Append", "ReadWrite", "ReadWriteTruncate", "ReadWriteAppend"];
    for (i, mode) in modes.iter().enumerate() {
        assert_eq!(enum_const_value("system.io.FileMode", mode), Some(i as i64));
        let ty = enum_const_ty("system.io.FileMode", mode).unwrap();
        assert_eq!(display(&ty), "system.io.FileMode");
    }
    assert_eq!(enum_const_value("system.io.FileMode", "Execute"), None);
    assert_eq!(enum_const_value("system.io.File", "Read"), None);
    assert!(enum_const_ty("system.io.File", "Read").is_none());
}

#[test]
fn native_objects_are_known() {
    for class in [
        "system.io.FileHandle",
        "system.Random",
        "system.net.TcpListener",
        "system.net.TcpStream",
        "system.net.UdpSocket",
        "system.thread.Thread",
        "system.thread.Mutex",
        "system.thread.Semaphore",
        "system.time.DateTime",
        "system.time.TimeZone",
    ] {
        assert!(is_native_instance(class));
    }
    assert!(!is_native_instance("system.io.File"));
    assert!(is_stdlib_class("system.io.File") && is_stdlib_class("system.Int"));
    assert!(!is_stdlib_class("t.A"));
    assert!(is_printlike("system.Out", "println") && is_printlike("system.Err", "print"));
    assert!(!is_printlike("system.In", "print"));
}
