use hyper_scheduler::axum::{CallConfigRequest, TestRequest};
use hyper_scheduler::runwasm::{
    check_call, cvt_params, param_kind, CallError, Environment, FuncConfig, ParamKind,
    RegisterConfig, Registry, WasmVal,
};

fn strings(v: &[&str]) -> Vec<String> {
    v.iter().map(|s| s.to_string()).collect()
}

fn no_floats(n: usize) -> Vec<Option<u64>> {
    vec![None; n]
}

fn call(name: &str, params: &[&str], ty: &str, len: &str, eet: &str, rd: &str) -> CallConfigRequest {
    CallConfigRequest {
        wasm_name: "fib.wasm".to_string(),
        task_unique_name: name.to_string(),
        export_func: "fib_r".to_string(),
        param_type: ty.to_string(),
        params: strings(params),
        results_length: len.to_string(),
        expected_execution_time: eet.to_string(),
        relative_deadline: rd.to_string(),
    }
}

#[test]
fn register_config_keeps_names() {
    let c = RegisterConfig::new("/tmp/fib.wasm", "fib.wasm");
    assert_eq!(c.get_path(), "/tmp/fib.wasm");
    assert_eq!(c.get_wasm_name(), "fib.wasm");
}

#[test]
fn param_kinds_ignore_case() {
    assert_eq!(param_kind("void"), ParamKind::Void);
    assert_eq!(param_kind("VOID"), ParamKind::Void);
    assert_eq!(param_kind("I32"), ParamKind::I32);
    assert_eq!(param_kind("i64"), ParamKind::I64);
    assert_eq!(param_kind("F32"), ParamKind::F32);
    assert_eq!(param_kind("f64"), ParamKind::F64);
    assert_eq!(param_kind("U128"), ParamKind::U128);
    assert_eq!(param_kind("string"), ParamKind::Invalid);
    assert_eq!(param_kind(""), ParamKind::Invalid);
}

#[test]
fn converts_integer_params() {
    let p = strings(&["30", "-4"]);
    assert_eq!(cvt_params("i32", &p, &no_floats(2)), Ok(vec![WasmVal::I32(30), WasmVal::I32(-4)]));
    assert_eq!(cvt_params("I64", &p, &no_floats(2)), Ok(vec![WasmVal::I64(30), WasmVal::I64(-4)]));
    let p = strings(&["340282366920938463463374607431768211455"]);
    assert_eq!(cvt_params("u128", &p, &no_floats(1)), Ok(vec![WasmVal::V128(u128::MAX)]));
}

#[test]
fn void_takes_no_params() {
    let p = strings(&["1", "x"]);
    assert_eq!(cvt_params("void", &p, &no_floats(2)), Ok(vec![]));
}

#[test]
fn bad_params_are_refused() {
    let p = strings(&["30", "x"]);
    assert_eq!(cvt_params("i32", &p, &no_floats(2)), Err(CallError::InvalidParams));
    let p = strings(&["2147483648"]);
    assert_eq!(cvt_params("i32", &p, &no_floats(1)), Err(CallError::InvalidParams));
    assert_eq!(cvt_params("str", &p, &no_floats(1)), Err(CallError::InvalidParams));
    let p = strings(&["-1"]);
    assert_eq!(cvt_params("u128", &p, &no_floats(1)), Err(CallError::InvalidParams));
}

#[test]
fn float_params_take_parsed_bits() {
    let p = strings(&["1.5", "x"]);
    let bits: Vec<Option<u64>> = p.iter().map(|s| s.parse::<f32>().ok().map(|v| v.to_bits() as u64)).collect();
    assert_eq!(cvt_params("f32", &p, &bits), Err(CallError::InvalidParams));
    let p = strings(&["1.5"]);
    let bits: Vec<Option<u64>> = p.iter().map(|s| s.parse::<f32>().ok().map(|v| v.to_bits() as u64)).collect();
    assert_eq!(cvt_params("f32", &p, &bits), Ok(vec![WasmVal::F32(1.5f32.to_bits())]));
    let bits: Vec<Option<u64>> = p.iter().map(|s| s.parse::<f64>().ok().map(|v| v.to_bits())).collect();
    assert_eq!(cvt_params("F64", &p, &bits), Ok(vec![WasmVal::F64(1.5f64.to_bits())]));
}

#[test]
fn func_config_from_call_request() {
    let fc = FuncConfig::new(call("scc1", &["35"], "i32", "2", "35", "50"), &no_floats(1)).unwrap();
    assert_eq!(fc.get_task_unique_name(), "scc1");
    assert_eq!(fc.get_export_func(), "fib_r");
    assert_eq!(fc.get_params(), &vec![WasmVal::I32(35)]);
    assert_eq!(fc.get_results(), &vec![WasmVal::I32(35), WasmVal::I32(35)]);
    assert_eq!(fc.get_expected_execution_time(), 35);
    assert_eq!(fc.get_relative_deadline(), 50);
}

#[test]
fn func_config_defaults_unreadable_numbers_to_zero() {
    let fc = FuncConfig::new(call("a", &[], "void", "x", "", "-3"), &no_floats(0)).unwrap();
    assert_eq!(fc.get_results().len(), 0);
    assert_eq!(fc.get_expected_execution_time(), 0);
    assert_eq!(fc.get_relative_deadline(), 0);
    let fc = FuncConfig::new(call("a", &[], "void", "3", "1", "2"), &no_floats(0)).unwrap();
    assert_eq!(fc.get_results(), &vec![WasmVal::I32(0); 3]);
}

#[test]
fn func_config_refuses_bad_params() {
    let r = FuncConfig::new(call("a", &["q"], "i32", "1", "1", "2"), &no_floats(1));
    assert!(matches!(r, Err(CallError::InvalidParams)));
}

#[test]
fn func_config_from_test_request() {
    let t = TestRequest {
        wasm_name: "fib.wasm".to_string(),
        export_func: "fib".to_string(),
        param_type: "i32".to_string(),
        params: strings(&["32"]),
        results_length: "1".to_string(),
        expected_deadline: "30".to_string(),
    };
    let fc = FuncConfig::from(t, &no_floats(1)).unwrap();
    assert_eq!(fc.get_task_unique_name(), "anon");
    assert_eq!(fc.get_expected_execution_time(), 0);
    assert_eq!(fc.get_relative_deadline(), 30);
    assert_eq!(fc.get_results(), &vec![WasmVal::I32(32)]);
}

#[test]
fn func_config_setters() {
    let mut fc = FuncConfig::new(call("a", &[], "void", "0", "1", "2"), &no_floats(0)).unwrap();
    fc.set_relative_deadline(70);
    fc.set_expected_execution_time(12);
    assert_eq!(fc.get_relative_deadline(), 70);
    assert_eq!(fc.get_expected_execution_time(), 12);
    let c = fc.clone();
    assert_eq!(c.get_relative_deadline(), 70);
    assert_eq!(c.get_task_unique_name(), "a");
}

#[test]
fn environment_test_time() {
    let mut env = Environment::new(&RegisterConfig::new("/tmp/x.wasm", "x.wasm"));
    assert_eq!(env.get_wasm_name(), "x.wasm");
    assert_eq!(env.get_test_time(), 0);
    env.set_test_time(9);
    assert_eq!(env.get_test_time(), 0);
    assert!(env.get_func_config().is_none());
    env.set_func_config(FuncConfig::new(call("a", &[], "void", "0", "1", "2"), &no_floats(0)).unwrap());
    env.set_test_time(9);
    assert_eq!(env.get_test_time(), 9);
    assert_eq!(env.get_func_config().unwrap().get_relative_deadline(), 2);
}

#[test]
fn registry_read_after_write() {
    let mut r: Registry<u64> = Registry::new();
    assert_eq!(r.len(), 0);
    r.insert("scc1".to_string(), 1);
    r.insert("scc2".to_string(), 2);
    assert_eq!(r.get("scc1"), Some(&1));
    assert_eq!(r.get("scc2"), Some(&2));
    assert!(!r.contains_key("scc3"));
    r.insert("scc1".to_string(), 7);
    assert_eq!(r.get("scc1"), Some(&7));
    assert_eq!(r.len(), 2);
}

#[test]
fn check_call_deadline_must_exceed_estimate() {
    let names: Registry<u64> = Registry::new();
    let mut fc = FuncConfig::new(call("a", &[], "void", "0", "50", "50"), &no_floats(0)).unwrap();
    assert_eq!(check_call(&mut fc, &names, "anonX".to_string()), Err(CallError::InvalidDeadline));
    let mut fc = FuncConfig::new(call("a", &[], "void", "0", "49", "50"), &no_floats(0)).unwrap();
    assert_eq!(check_call(&mut fc, &names, "anonX".to_string()), Ok(()));
    assert_eq!(fc.get_task_unique_name(), "a");
}

#[test]
fn check_call_names_anonymous_and_refuses_duplicates() {
    let mut names: Registry<u64> = Registry::new();
    let mut fc = FuncConfig::new(call("anon", &[], "void", "0", "1", "5"), &no_floats(0)).unwrap();
    assert_eq!(check_call(&mut fc, &names, "anon42".to_string()), Ok(()));
    assert_eq!(fc.get_task_unique_name(), "anon42");
    names.insert("scc3".to_string(), 3);
    let mut fc = FuncConfig::new(call("scc3", &[], "void", "0", "1", "5"), &no_floats(0)).unwrap();
    assert_eq!(check_call(&mut fc, &names, "anon43".to_string()), Err(CallError::InvalidUniqueName));
}
