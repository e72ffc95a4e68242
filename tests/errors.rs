use rayexec::error::{with_context, ErrorKind, RayexecError, ResultExt};

#[test]
fn errors_keep_kind_and_source() {
    let inner = RayexecError::with_kind(ErrorKind::Lookup, "missing");
    let outer = RayexecError::with_source("while planning", inner);
    assert_eq!(outer.kind, ErrorKind::Lookup);
    assert_eq!(outer.msg, "while planning");
    assert_eq!(outer.source.as_ref().unwrap().msg, "missing");
    let _ = outer.get_backtrace();
    assert_eq!(RayexecError::new("x").kind, ErrorKind::Other);
}

#[test]
fn context_wraps_errors_only() {
    let ok: Result<u32, RayexecError> = Ok(3);
    assert_eq!(with_context(ok, "ctx").unwrap(), 3);
    let err: Result<u32, RayexecError> = Err(RayexecError::with_kind(ErrorKind::Io, "read failed"));
    let wrapped = err.context("scan").unwrap_err();
    assert_eq!(wrapped.msg, "scan");
    assert_eq!(wrapped.kind, ErrorKind::Io);
    assert_eq!(wrapped.source.unwrap().msg, "read failed");
}

#[test]
fn display_includes_sources() {
    let inner = RayexecError::new("disk full");
    let outer = RayexecError::with_source("write failed", inner);
    assert_eq!(outer.to_display_string(), "write failed\nError source: disk full");
}

#[test]
fn context_fn_makes_message_on_error() {
    let err: Result<u32, RayexecError> = Err(RayexecError::new("inner"));
    let wrapped = err.context_fn(|| format!("step {}", 2)).unwrap_err();
    assert_eq!(wrapped.msg, "step 2");
    let ok: Result<u32, RayexecError> = Ok(1);
    assert_eq!(ok.context_fn(|| panic!("not called")).unwrap(), 1);
}
