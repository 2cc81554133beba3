use crate::axum::{CallConfigRequest, TestRequest};
use crate::parse::{
    lowercase_equals, lower_eq, parse_i32, parse_i64, parse_u128, parse_u64, parse_usize,
    spec_parse_in, spec_parse_int, text_bytes,
};
use crate::scheduler::Scheduler;
use crate::task::{since, SchedulerStatus};
use vstd::prelude::*;
use vstd::string::StringSliceAdditionalSpecFns;

verus! {

/// Where a wasm module is and the name it is registered under.
pub struct RegisterConfig {
    path: String,
    wasm_name: String,
}

impl RegisterConfig {
    pub closed spec fn path_of(self) -> Seq<char> {
        self.path@
    }

    pub closed spec fn wasm_name_of(self) -> Seq<char> {
        self.wasm_name@
    }

    pub fn new(path: &str, wasm_name: &str) -> (r: RegisterConfig)
        ensures
            r.path_of() == path@,
            r.wasm_name_of() == wasm_name@,
    {
        RegisterConfig { path: path.to_owned(), wasm_name: wasm_name.to_owned() }
    }

    pub fn get_wasm_name(&self) -> (r: &str)
        ensures
            r@ == self.wasm_name_of(),
    {
        self.wasm_name.as_str()
    }

    pub fn get_path(&self) -> (r: &str)
        ensures
            r@ == self.path_of(),
    {
        self.path.as_str()
    }
}

/// A value handed to or received from a wasm function. Floats are kept as their bits,
/// as wasm values hold them.
#[derive(Clone, Copy, Debug, PartialEq, Eq, Structural)]
pub enum WasmVal {
    I32(i32),
    I64(i64),
    F32(u32),
    F64(u64),
    V128(u128),
}

/// The parameter types a call can name.
#[derive(Clone, Copy, Debug, PartialEq, Eq, Structural)]
pub enum ParamKind {
    Void,
    I32,
    I64,
    F32,
    F64,
    U128,
    Invalid,
}

pub open spec fn word_void() -> Seq<u8> {
    seq![118u8, 111u8, 105u8, 100u8]
}

pub open spec fn word_i32() -> Seq<u8> {
    seq![105u8, 51u8, 50u8]
}

pub open spec fn word_i64() -> Seq<u8> {
    seq![105u8, 54u8, 52u8]
}

pub open spec fn word_f32() -> Seq<u8> {
    seq![102u8, 51u8, 50u8]
}

pub open spec fn word_f64() -> Seq<u8> {
    seq![102u8, 54u8, 52u8]
}

pub open spec fn word_u128() -> Seq<u8> {
    seq![117u8, 49u8, 50u8, 56u8]
}

/// The parameter type a request names: "void", "i32", "i64", "f32", "f64" or
/// "u128", in any case.
pub open spec fn spec_param_kind(b: Seq<u8>) -> ParamKind {
    if lower_eq(b, word_void()) {
        ParamKind::Void
    } else if lower_eq(b, word_i32()) {
        ParamKind::I32
    } else if lower_eq(b, word_i64()) {
        ParamKind::I64
    } else if lower_eq(b, word_f32()) {
        ParamKind::F32
    } else if lower_eq(b, word_f64()) {
        ParamKind::F64
    } else if lower_eq(b, word_u128()) {
        ParamKind::U128
    } else {
        ParamKind::Invalid
    }
}

pub fn param_kind(param_type: &str) -> (r: ParamKind)
    ensures
        r == spec_param_kind(param_type.spec_bytes()),
{
    let void: [u8; 4] = [118u8, 111u8, 105u8, 100u8];
    let i32w: [u8; 3] = [105u8, 51u8, 50u8];
    let i64w: [u8; 3] = [105u8, 54u8, 52u8];
    let f32w: [u8; 3] = [102u8, 51u8, 50u8];
    let f64w: [u8; 3] = [102u8, 54u8, 52u8];
    let u128w: [u8; 4] = [117u8, 49u8, 50u8, 56u8];
    assert(void@ =~= word_void());
    assert(i32w@ =~= word_i32());
    assert(i64w@ =~= word_i64());
    assert(f32w@ =~= word_f32());
    assert(f64w@ =~= word_f64());
    assert(u128w@ =~= word_u128());
    if lowercase_equals(param_type, void.as_slice()) {
        ParamKind::Void
    } else if lowercase_equals(param_type, i32w.as_slice()) {
        ParamKind::I32
    } else if lowercase_equals(param_type, i64w.as_slice()) {
        ParamKind::I64
    } else if lowercase_equals(param_type, f32w.as_slice()) {
        ParamKind::F32
    } else if lowercase_equals(param_type, f64w.as_slice()) {
        ParamKind::F64
    } else if lowercase_equals(param_type, u128w.as_slice()) {
        ParamKind::U128
    } else {
        ParamKind::Invalid
    }
}

/// Why a call request was refused.
#[derive(Clone, Copy, Debug, PartialEq, Eq, Structural)]
pub enum CallError {
    /// A parameter type that is not known, or a parameter that is no value of it.
    InvalidParams,
    /// The deadline is not later than the expected execution time.
    InvalidDeadline,
    /// Another call already has the instance name.
    InvalidUniqueName,
}

/// The value parameter text `b` gives for parameter type `kind`; for floats, `fbits`
/// is the bit pattern that Rust's float parsing gave for the text, if any.
pub open spec fn spec_param_val(kind: ParamKind, b: Seq<u8>, fbits: Option<u64>) -> Option<
    WasmVal,
> {
    match kind {
        ParamKind::I32 => match spec_parse_in(b, true, i32::MIN as int, i32::MAX as int) {
            Some(v) => Some(WasmVal::I32(v as i32)),
            None => None,
        },
        ParamKind::I64 => match spec_parse_in(b, true, i64::MIN as int, i64::MAX as int) {
            Some(v) => Some(WasmVal::I64(v as i64)),
            None => None,
        },
        ParamKind::U128 => match spec_parse_in(b, false, 0, u128::MAX as int) {
            Some(v) => Some(WasmVal::V128(v as u128)),
            None => None,
        },
        ParamKind::F32 => match fbits {
            Some(x) => Some(WasmVal::F32(x as u32)),
            None => None,
        },
        ParamKind::F64 => match fbits {
            Some(x) => Some(WasmVal::F64(x)),
            None => None,
        },
        _ => None,
    }
}

/// The parameters convert: the type is known, and unless it is "void" every
/// parameter is a value of it.
pub open spec fn spec_params_ok(
    param_type: Seq<char>,
    params: Seq<String>,
    float_bits: Seq<Option<u64>>,
) -> bool {
    let kind = spec_param_kind(text_bytes(param_type));
    &&& kind != ParamKind::Invalid
    &&& (kind != ParamKind::Void ==> forall|i: int|
        0 <= i < params.len() ==> spec_param_val(kind, #[trigger] text_bytes(params[i]@), float_bits[i])
            is Some)
}

/// `v` is what the parameters convert to: nothing for "void", else one value each.
pub open spec fn spec_params_are(
    param_type: Seq<char>,
    params: Seq<String>,
    float_bits: Seq<Option<u64>>,
    v: Seq<WasmVal>,
) -> bool {
    let kind = spec_param_kind(text_bytes(param_type));
    if kind == ParamKind::Void {
        v.len() == 0
    } else {
        &&& v.len() == params.len()
        &&& forall|i: int|
            0 <= i < params.len() ==> spec_param_val(kind, #[trigger] text_bytes(params[i]@), float_bits[i])
                == Some(v[i])
    }
}

/// Converts request parameters of type `param_type` to wasm values. "void" takes no
/// parameter whatever the list holds; an unknown type, or any parameter that is no
/// value of the type, is `InvalidParams`. Float parameters arrive already read:
/// `float_bits[i]` is what Rust's float parsing gave for `params[i]`, as bits.
pub fn cvt_params(param_type: &str, params: &Vec<String>, float_bits: &Vec<Option<u64>>) -> (r:
    Result<Vec<WasmVal>, CallError>)
    requires
        float_bits.len() == params.len(),
    ensures
        r is Ok == spec_params_ok(param_type@, params@, float_bits@),
        r matches Ok(v) ==> spec_params_are(param_type@, params@, float_bits@, v@),
        r matches Err(e) ==> e == CallError::InvalidParams,
{
    let kind = param_kind(param_type);
    assert(param_type.spec_bytes() == text_bytes(param_type@));
    match kind {
        ParamKind::Void => {
            return Ok(Vec::new());
        },
        ParamKind::Invalid => {
            return Err(CallError::InvalidParams);
        },
        _ => {},
    }
    let mut res: Vec<WasmVal> = Vec::new();
    let mut i: usize = 0;
    while i < params.len()
        invariant
            kind == spec_param_kind(param_type.spec_bytes()),
            kind != ParamKind::Void && kind != ParamKind::Invalid,
            float_bits.len() == params.len(),
            i <= params.len(),
            res@.len() == i,
            forall|j: int|
                0 <= j < i ==> spec_param_val(kind, #[trigger] text_bytes(params@[j]@), float_bits@[j])
                    == Some(res@[j]),
        decreases params.len() - i,
    {
        let p = params[i].as_str();
        let fb = float_bits[i];
        assert(p.spec_bytes() == text_bytes(params@[i as int]@));
        assert(param_type.spec_bytes() == text_bytes(param_type@));
        let v: Option<WasmVal> = match kind {
            ParamKind::I32 => match parse_i32(p) {
                Some(x) => Some(WasmVal::I32(x)),
                None => None,
            },
            ParamKind::I64 => match parse_i64(p) {
                Some(x) => Some(WasmVal::I64(x)),
                None => None,
            },
            ParamKind::U128 => match parse_u128(p) {
                Some(x) => Some(WasmVal::V128(x)),
                None => None,
            },
            ParamKind::F32 => match fb {
                Some(x) => Some(WasmVal::F32(x as u32)),
                None => None,
            },
            _ => match fb {
                Some(x) => Some(WasmVal::F64(x)),
                None => None,
            },
        };
        match v {
            Some(x) => res.push(x),
            None => {
                assert(spec_param_val(kind, text_bytes(params@[i as int]@), float_bits@[i as int])
                    is None);
                return Err(CallError::InvalidParams);
            },
        }
        i = i + 1;
    }
    Ok(res)
}

} // verus!

verus! {

/// What `parse::<u64>().unwrap_or(0)` gives for the text `b`.
pub open spec fn u64_or_zero(b: Seq<u8>) -> u64 {
    match spec_parse_in(b, false, 0, u64::MAX as int) {
        Some(v) => v as u64,
        None => 0,
    }
}

/// What `parse::<usize>().unwrap_or(0)` gives for the text `b`.
pub open spec fn usize_or_zero(b: Seq<u8>) -> usize {
    match spec_parse_in(b, false, 0, usize::MAX as int) {
        Some(v) => v as usize,
        None => 0,
    }
}

/// A call of an exported function: instance name, function, parameters, result
/// slots, and the expected execution time and relative deadline in milliseconds.
pub struct FuncConfig {
    task_unique_name: String,
    export_func: String,
    params: Vec<WasmVal>,
    results: Vec<WasmVal>,
    expected_execution_time: u64,
    relative_deadline: u64,
}

impl FuncConfig {
    pub closed spec fn name_of(self) -> Seq<char> {
        self.task_unique_name@
    }

    pub closed spec fn export_of(self) -> Seq<char> {
        self.export_func@
    }

    pub closed spec fn params_of(self) -> Seq<WasmVal> {
        self.params@
    }

    pub closed spec fn results_of(self) -> Seq<WasmVal> {
        self.results@
    }

    pub closed spec fn eet_of(self) -> u64 {
        self.expected_execution_time
    }

    pub closed spec fn rd_of(self) -> u64 {
        self.relative_deadline
    }

    /// The two configurations hold the same values.
    pub open spec fn same_as(self, o: FuncConfig) -> bool {
        &&& self.name_of() == o.name_of()
        &&& self.export_of() == o.export_of()
        &&& self.params_of() == o.params_of()
        &&& self.results_of() == o.results_of()
        &&& self.eet_of() == o.eet_of()
        &&& self.rd_of() == o.rd_of()
    }

    /// `results_len` result slots, each holding the first parameter (or the `i32` zero
    /// where there is none).
    fn result_slots(params: &Vec<WasmVal>, results_len: usize) -> (r: Vec<WasmVal>)
        ensures
            r@.len() == results_len,
            forall|i: int|
                0 <= i < results_len ==> #[trigger] r@[i] == if params@.len() == 0 {
                    WasmVal::I32(0)
                } else {
                    params@[0]
                },
    {
        let fill = if params.len() == 0 {
            WasmVal::I32(0)
        } else {
            params[0]
        };
        let mut r: Vec<WasmVal> = Vec::new();
        let mut i: usize = 0;
        while i < results_len
            invariant
                i <= results_len,
                r@.len() == i,
                forall|j: int| 0 <= j < i ==> #[trigger] r@[j] == fill,
            decreases results_len - i,
        {
            r.push(fill);
            i = i + 1;
        }
        r
    }

    /// The call a request asks for. Lengths and times that do not read as numbers
    /// count as zero; parameters that do not convert refuse the request.
    pub fn new(call_config: CallConfigRequest, float_bits: &Vec<Option<u64>>) -> (r: Result<
        FuncConfig,
        CallError,
    >)
        requires
            float_bits.len() == call_config.params.len(),
        ensures
            r is Ok == spec_params_ok(call_config.param_type@, call_config.params@, float_bits@),
            r matches Ok(fc) ==> {
                &&& fc.name_of() == call_config.task_unique_name@
                &&& fc.export_of() == call_config.export_func@
                &&& spec_params_are(call_config.param_type@, call_config.params@, float_bits@, fc.params_of())
                &&& fc.results_of().len() == usize_or_zero(text_bytes(call_config.results_length@))
                &&& forall|i: int| 0 <= i < fc.results_of().len() ==> #[trigger] fc.results_of()[i]
                    == if fc.params_of().len() == 0 {
                    WasmVal::I32(0)
                } else {
                    fc.params_of()[0]
                }
                &&& fc.eet_of() == u64_or_zero(text_bytes(call_config.expected_execution_time@))
                &&& fc.rd_of() == u64_or_zero(text_bytes(call_config.relative_deadline@))
            },
            r matches Err(e) ==> e == CallError::InvalidParams,
    {
        match cvt_params(call_config.param_type.as_str(), &call_config.params, float_bits) {
            Ok(params) => {
                let results_len = match parse_usize(call_config.results_length.as_str()) {
                    Some(n) => n,
                    None => 0,
                };
                let results = Self::result_slots(&params, results_len);
                let eet = match parse_u64(call_config.expected_execution_time.as_str()) {
                    Some(n) => n,
                    None => 0,
                };
                let rd = match parse_u64(call_config.relative_deadline.as_str()) {
                    Some(n) => n,
                    None => 0,
                };
                Ok(
                    FuncConfig {
                        task_unique_name: call_config.task_unique_name,
                        export_func: call_config.export_func,
                        params,
                        results,
                        expected_execution_time: eet,
                        relative_deadline: rd,
                    },
                )
            },
            Err(e) => Err(e),
        }
    }
    /// The call a timing request asks for: an anonymous instance ("anon") with no
    /// expected execution time.
    pub fn from(test_config: TestRequest, float_bits: &Vec<Option<u64>>) -> (r: Result<
        FuncConfig,
        CallError,
    >)
        requires
            float_bits.len() == test_config.params.len(),
        ensures
            r is Ok == spec_params_ok(test_config.param_type@, test_config.params@, float_bits@),
            r matches Ok(fc) ==> {
                &&& fc.name_of() == "anon"@
                &&& fc.export_of() == test_config.export_func@
                &&& spec_params_are(
                    test_config.param_type@,
                    test_config.params@,
                    float_bits@,
                    fc.params_of(),
                )
                &&& fc.results_of().len() == usize_or_zero(text_bytes(test_config.results_length@))
                &&& forall|i: int| 0 <= i < fc.results_of().len() ==> #[trigger] fc.results_of()[i]
                    == if fc.params_of().len() == 0 {
                    WasmVal::I32(0)
                } else {
                    fc.params_of()[0]
                }
                &&& fc.eet_of() == 0
                &&& fc.rd_of() == u64_or_zero(text_bytes(test_config.expected_deadline@))
            },
            r matches Err(e) ==> e == CallError::InvalidParams,
    {
        match cvt_params(test_config.param_type.as_str(), &test_config.params, float_bits) {
            Ok(params) => {
                let results_len = match parse_usize(test_config.results_length.as_str()) {
                    Some(n) => n,
                    None => 0,
                };
                let results = Self::result_slots(&params, results_len);
                let rd = match parse_u64(test_config.expected_deadline.as_str()) {
                    Some(n) => n,
                    None => 0,
                };
                Ok(
                    FuncConfig {
                        task_unique_name: "anon".to_owned(),
                        export_func: test_config.export_func,
                        params,
                        results,
                        expected_execution_time: 0,
                        relative_deadline: rd,
                    },
                )
            },
            Err(e) => Err(e),
        }
    }

    pub fn set_relative_deadline(&mut self, relative_deadline: u64)
        ensures
            final(self).rd_of() == relative_deadline,
            final(self).name_of() == old(self).name_of(),
            final(self).export_of() == old(self).export_of(),
            final(self).params_of() == old(self).params_of(),
            final(self).results_of() == old(self).results_of(),
            final(self).eet_of() == old(self).eet_of(),
    {
        self.relative_deadline = relative_deadline;
    }

    pub fn get_relative_deadline(&self) -> (r: u64)
        ensures
            r == self.rd_of(),
    {
        self.relative_deadline
    }

    pub fn set_expected_execution_time(&mut self, expected_execution_time: u64)
        ensures
            final(self).eet_of() == expected_execution_time,
            final(self).name_of() == old(self).name_of(),
            final(self).export_of() == old(self).export_of(),
            final(self).params_of() == old(self).params_of(),
            final(self).results_of() == old(self).results_of(),
            final(self).rd_of() == old(self).rd_of(),
    {
        self.expected_execution_time = expected_execution_time;
    }

    pub fn get_expected_execution_time(&self) -> (r: u64)
        ensures
            r == self.eet_of(),
    {
        self.expected_execution_time
    }

    pub fn get_task_unique_name(&self) -> (r: &str)
        ensures
            r@ == self.name_of(),
    {
        self.task_unique_name.as_str()
    }

    pub fn get_export_func(&self) -> (r: &str)
        ensures
            r@ == self.export_of(),
    {
        self.export_func.as_str()
    }

    pub fn get_params(&self) -> (r: &Vec<WasmVal>)
        ensures
            r@ == self.params_of(),
    {
        &self.params
    }

    pub fn get_results(&self) -> (r: &Vec<WasmVal>)
        ensures
            r@ == self.results_of(),
    {
        &self.results
    }
}

impl Clone for FuncConfig {
    fn clone(&self) -> (r: FuncConfig)
        ensures
            r.same_as(*self),
    {
        FuncConfig {
            task_unique_name: self.task_unique_name.clone(),
            export_func: self.export_func.clone(),
            params: self.params.clone(),
            results: self.results.clone(),
            expected_execution_time: self.expected_execution_time,
            relative_deadline: self.relative_deadline,
        }
    }
}

/// What the service keeps of a registered wasm module: its name and the call it was
/// last timed with.
pub struct Environment {
    wasm_name: String,
    func_config: Option<FuncConfig>,
}

impl Environment {
    pub closed spec fn wasm_name_of(self) -> Seq<char> {
        self.wasm_name@
    }

    pub closed spec fn func_config_of(self) -> Option<FuncConfig> {
        self.func_config
    }

    /// The environment of the module `config` registers, with no call yet.
    pub fn new(config: &RegisterConfig) -> (r: Environment)
        ensures
            r.wasm_name_of() == config.wasm_name_of(),
            r.func_config_of() is None,
    {
        Environment { wasm_name: config.get_wasm_name().to_owned(), func_config: None }
    }

    pub fn set_func_config(&mut self, config: FuncConfig)
        ensures
            final(self).func_config_of() == Some(config),
            final(self).wasm_name_of() == old(self).wasm_name_of(),
    {
        self.func_config = Some(config);
    }

    pub fn get_func_config(&self) -> (r: Option<FuncConfig>)
        ensures
            r is Some == self.func_config_of() is Some,
            r matches Some(c) ==> c.same_as(self.func_config_of()->0),
    {
        match &self.func_config {
            Some(c) => Some(c.clone()),
            None => None,
        }
    }

    pub fn get_wasm_name(&self) -> (r: &str)
        ensures
            r@ == self.wasm_name_of(),
    {
        self.wasm_name.as_str()
    }

    /// Records a measured execution time as the expected one of the call, where there
    /// is a call.
    pub fn set_test_time(&mut self, test_time: u64)
        ensures
            final(self).wasm_name_of() == old(self).wasm_name_of(),
            old(self).func_config_of() is None ==> final(self).func_config_of() is None,
            old(self).func_config_of() matches Some(c) ==> final(self).func_config_of() matches Some(
                d,
            ) && d.eet_of() == test_time && d.name_of() == c.name_of() && d.export_of()
                == c.export_of() && d.params_of() == c.params_of() && d.results_of()
                == c.results_of() && d.rd_of() == c.rd_of(),
    {
        if let Some(func_config) = &mut self.func_config {
            func_config.set_expected_execution_time(test_time);
        }
    }

    /// The expected execution time of the call, or 0 without a call.
    pub fn get_test_time(&self) -> (r: u64)
        ensures
            r == match self.func_config_of() {
                Some(c) => c.eet_of(),
                None => 0,
            },
    {
        if let Some(func_config) = &self.func_config {
            func_config.get_expected_execution_time()
        } else {
            0
        }
    }
}

impl Clone for Environment {
    fn clone(&self) -> (r: Environment)
        ensures
            r.wasm_name_of() == self.wasm_name_of(),
            r.func_config_of() is Some == self.func_config_of() is Some,
            r.func_config_of() matches Some(c) ==> c.same_as(self.func_config_of()->0),
    {
        Environment { wasm_name: self.wasm_name.clone(), func_config: self.get_func_config() }
    }
}

/// Values by name, as a map from text to value.
pub struct Registry<V> {
    entries: Vec<(String, V)>,
}

/// The map that a list of distinct names and their values stands for.
pub open spec fn entries_map<V>(s: Seq<(String, V)>) -> Map<Seq<char>, V>
    decreases s.len(),
{
    if s.len() == 0 {
        Map::empty()
    } else {
        entries_map(s.drop_last()).insert(s.last().0@, s.last().1)
    }
}

pub open spec fn names_distinct<V>(s: Seq<(String, V)>) -> bool {
    forall|i: int, j: int|
        0 <= i < s.len() && 0 <= j < s.len() && i != j ==> (#[trigger] s[i]).0@ != (#[trigger] s[j]).0@
}

/// With distinct names, the map holds a name exactly where the list does, with its
/// value.
proof fn lemma_entries_map<V>(s: Seq<(String, V)>)
    requires
        names_distinct(s),
    ensures
        forall|k: Seq<char>|
            #[trigger] entries_map(s).contains_key(k) <==> exists|i: int|
                0 <= i < s.len() && (#[trigger] s[i]).0@ == k,
        forall|i: int| 0 <= i < s.len() ==> #[trigger] entries_map(s)[s[i].0@] == s[i].1,
    decreases s.len(),
{
    if s.len() > 0 {
        let t = s.drop_last();
        assert forall|i: int, j: int|
            0 <= i < t.len() && 0 <= j < t.len() && i != j implies (#[trigger] t[i]).0@ != (
            #[trigger] t[j]).0@ by {
            assert(t[i] == s[i] && t[j] == s[j]);
        }
        lemma_entries_map(t);
        assert forall|k: Seq<char>| #[trigger] entries_map(s).contains_key(k) implies exists|i: int|
            0 <= i < s.len() && (#[trigger] s[i]).0@ == k by {
            if k != s.last().0@ {
                assert(entries_map(t).contains_key(k));
                let i = choose|i: int| 0 <= i < t.len() && (#[trigger] t[i]).0@ == k;
                assert(s[i] == t[i]);
            } else {
                assert(s[s.len() - 1].0@ == k);
            }
        }
        assert forall|k: Seq<char>|
            (exists|i: int| 0 <= i < s.len() && (#[trigger] s[i]).0@ == k) implies #[trigger] entries_map(
            s,
        ).contains_key(k) by {
            let i = choose|i: int| 0 <= i < s.len() && (#[trigger] s[i]).0@ == k;
            if i < s.len() - 1 {
                assert(t[i] == s[i]);
                assert(t[i].0@ == k);
                assert(entries_map(t).contains_key(k));
            }
        }
        assert forall|i: int| 0 <= i < s.len() implies #[trigger] entries_map(s)[s[i].0@] == s[i].1 by {
            if i < s.len() - 1 {
                assert(t[i] == s[i]);
                assert(s[i].0@ != s[s.len() - 1].0@);
                assert(entries_map(t)[t[i].0@] == t[i].1);
            }
        }
    }
}

impl<V> Registry<V> {
    pub closed spec fn view(&self) -> Map<Seq<char>, V> {
        entries_map(self.entries@)
    }

    #[verifier::type_invariant]
    closed spec fn inv(self) -> bool {
        names_distinct(self.entries@)
    }

    pub fn new() -> (r: Registry<V>)
        ensures
            r@ == Map::<Seq<char>, V>::empty(),
    {
        Registry { entries: Vec::new() }
    }

    fn index_of(&self, name: &str) -> (r: Option<usize>)
        ensures
            r matches Some(i) ==> i < self.entries@.len() && self.entries@[i as int].0@ == name@,
            r is None ==> forall|i: int|
                0 <= i < self.entries@.len() ==> (#[trigger] self.entries@[i]).0@ != name@,
    {
        let key = name.to_owned();
        let mut i: usize = 0;
        while i < self.entries.len()
            invariant
                key@ == name@,
                i <= self.entries@.len(),
                forall|j: int| 0 <= j < i ==> (#[trigger] self.entries@[j]).0@ != name@,
            decreases self.entries@.len() - i,
        {
            if self.entries[i].0 == key {
                return Some(i);
            }
            i = i + 1;
        }
        None
    }

    pub fn contains_key(&self, name: &str) -> (r: bool)
        ensures
            r == self@.contains_key(name@),
    {
        proof {
            use_type_invariant(self);
            lemma_entries_map(self.entries@);
        }
        self.index_of(name).is_some()
    }

    pub fn get(&self, name: &str) -> (r: Option<&V>)
        ensures
            r is Some == self@.contains_key(name@),
            r matches Some(v) ==> *v == self@[name@],
    {
        proof {
            use_type_invariant(self);
            lemma_entries_map(self.entries@);
        }
        match self.index_of(name) {
            Some(i) => Some(&self.entries[i].1),
            None => None,
        }
    }

    /// Maps `name` to `value`, replacing what it mapped to.
    pub fn insert(&mut self, name: String, value: V)
        ensures
            final(self)@ == old(self)@.insert(name@, value),
    {
        proof {
            use_type_invariant(&*self);
            lemma_entries_map(self.entries@);
        }
        let ghost old_m = self@;
        match self.index_of(name.as_str()) {
            Some(i) => {
                let ghost s0 = self.entries@;
                let mut entries: Vec<(String, V)> = Vec::new();
                std::mem::swap(&mut entries, &mut self.entries);
                entries.set(i, (name, value));
                let ghost s1 = entries@;
                proof {
                    assert(s1 == s0.update(i as int, s1[i as int]));
                    assert forall|a: int, b: int|
                        0 <= a < s1.len() && 0 <= b < s1.len() && a != b implies (
                        #[trigger] s1[a]).0@ != (#[trigger] s1[b]).0@ by {
                        if a != i && b != i {
                            assert(s1[a] == s0[a] && s1[b] == s0[b]);
                        } else if a == i {
                            assert(s1[b] == s0[b]);
                        } else {
                            assert(s1[a] == s0[a]);
                        }
                    }
                    lemma_entries_map(s1);
                    assert forall|k: Seq<char>| #[trigger] entries_map(s1).contains_key(k) <==> old_m.insert(
                        name@,
                        value,
                    ).contains_key(k) by {
                        if entries_map(s1).contains_key(k) {
                            let j = choose|j: int| 0 <= j < s1.len() && (#[trigger] s1[j]).0@ == k;
                            if j != i {
                                assert(s1[j] == s0[j]);
                            }
                        }
                        if old_m.contains_key(k) {
                            let j = choose|j: int| 0 <= j < s0.len() && (#[trigger] s0[j]).0@ == k;
                            if j != i {
                                assert(s1[j] == s0[j]);
                            }
                        }
                    }
                    assert forall|k: Seq<char>| #[trigger] entries_map(s1).contains_key(k) implies entries_map(
                        s1,
                    )[k] == old_m.insert(name@, value)[k] by {
                        let j = choose|j: int| 0 <= j < s1.len() && (#[trigger] s1[j]).0@ == k;
                        if j != i {
                            assert(s1[j] == s0[j]);
                        }
                    }
                    assert(entries_map(s1) =~= old_m.insert(name@, value));
                }
                self.entries = entries;
            },
            None => {
                let ghost s0 = self.entries@;
                let mut entries: Vec<(String, V)> = Vec::new();
                std::mem::swap(&mut entries, &mut self.entries);
                let ghost n = name@;
                entries.push((name, value));
                proof {
                    let s1 = entries@;
                    assert(s1.drop_last() =~= s0);
                    assert forall|a: int, b: int|
                        0 <= a < s1.len() && 0 <= b < s1.len() && a != b implies (
                        #[trigger] s1[a]).0@ != (#[trigger] s1[b]).0@ by {
                        if a < s0.len() && b < s0.len() {
                            assert(s1[a] == s0[a] && s1[b] == s0[b]);
                        } else if a < s0.len() {
                            assert(s1[a] == s0[a]);
                        } else {
                            assert(s1[b] == s0[b]);
                        }
                    }
                }
                self.entries = entries;
            },
        }
    }

    pub fn len(&self) -> (r: usize)
        ensures
            r == self@.dom().len(),
    {
        proof {
            use_type_invariant(self);
            lemma_entries_map(self.entries@);
            lemma_entries_len(self.entries@);
        }
        self.entries.len()
    }
}

proof fn lemma_entries_len<V>(s: Seq<(String, V)>)
    requires
        names_distinct(s),
    ensures
        entries_map(s).dom().len() == s.len(),
        entries_map(s).dom().finite(),
    decreases s.len(),
{
    if s.len() > 0 {
        let t = s.drop_last();
        assert forall|i: int, j: int|
            0 <= i < t.len() && 0 <= j < t.len() && i != j implies (#[trigger] t[i]).0@ != (
            #[trigger] t[j]).0@ by {
            assert(t[i] == s[i] && t[j] == s[j]);
        }
        lemma_entries_len(t);
        lemma_entries_map(t);
        assert(!entries_map(t).contains_key(s.last().0@)) by {
            if entries_map(t).contains_key(s.last().0@) {
                let i = choose|i: int| 0 <= i < t.len() && (#[trigger] t[i]).0@ == s.last().0@;
                assert(t[i] == s[i]);
            }
        }
    }
}

/// Checks a call before it is spawned: the deadline must be later than the expected
/// execution time; an anonymous instance ("anon") takes the name `anon_name`; the
/// instance name must not be in use in `names`.
pub fn check_call(conf: &mut FuncConfig, names: &Registry<u64>, anon_name: String) -> (r: Result<
    (),
    CallError,
>)
    ensures
        old(conf).rd_of() <= old(conf).eet_of() ==> r == Err::<(), CallError>(
            CallError::InvalidDeadline,
        ) && final(conf).same_as(*old(conf)),
        old(conf).rd_of() > old(conf).eet_of() ==> {
            let name = if old(conf).name_of() == "anon"@ {
                anon_name@
            } else {
                old(conf).name_of()
            };
            &&& final(conf).name_of() == name
            &&& final(conf).export_of() == old(conf).export_of()
            &&& final(conf).params_of() == old(conf).params_of()
            &&& final(conf).results_of() == old(conf).results_of()
            &&& final(conf).eet_of() == old(conf).eet_of()
            &&& final(conf).rd_of() == old(conf).rd_of()
            &&& (names@.contains_key(name) ==> r == Err::<(), CallError>(
                CallError::InvalidUniqueName,
            ))
            &&& (!names@.contains_key(name) ==> r == Ok::<(), CallError>(()))
        },
{
    if conf.relative_deadline <= conf.expected_execution_time {
        return Err(CallError::InvalidDeadline);
    }
    let anon = "anon".to_owned();
    if conf.task_unique_name == anon {
        conf.task_unique_name = anon_name;
    }
    if names.contains_key(conf.task_unique_name.as_str()) {
        return Err(CallError::InvalidUniqueName);
    }
    Ok(())
}

/// The record of the instance called `unique_name`, looked up by its id, with the
/// running time brought up to `now` where it is running.
pub fn get_status_by_name<B>(
    sched: &Scheduler<B>,
    names: &Registry<u64>,
    unique_name: &str,
    now: u64,
) -> (r: Option<SchedulerStatus>)
    requires
        names@.contains_key(unique_name@) ==> (sched.status_lookup(names@[unique_name@]) matches Some(
            s,
        ) ==> s.running_time_after(now) <= u64::MAX),
    ensures
        !names@.contains_key(unique_name@) ==> r is None,
        names@.contains_key(unique_name@) ==> {
            let id = names@[unique_name@];
            &&& r is Some == sched.status_lookup(id) is Some
            &&& r matches Some(s) ==> {
                let t = sched.status_lookup(id)->0;
                &&& s.running_time == t.running_time_after(now)
                &&& s.co_status == t.co_status
                &&& s.history() == t.history()
                &&& s.co_id == t.co_id
                &&& s.curr_start_time == t.curr_start_time
                &&& s.absolute_deadline == t.absolute_deadline
                &&& s.expected_remaining_execution_time == t.expected_remaining_execution_time
                &&& s.spawn_time == t.spawn_time
                &&& s.expected_execution_time == t.expected_execution_time
                &&& s.worst_start_time == t.worst_start_time
                &&& s.relative_deadline == t.relative_deadline
            }
        },
{
    if let Some(id) = names.get(unique_name) {
        let id = *id;
        if let Some(mut status) = sched.get_status_by_id(id) {
            if let Some(start) = status.curr_start_time {
                let d: u64 = if now >= start {
                    now - start
                } else {
                    0
                };
                status.running_time = status.running_time + d;
            }
            return Some(status);
        }
    }
    None
}

/// A read after a write: after `insert(name, value)`, looking `name` up gives `value`,
/// and every other name keeps what it had.
pub proof fn lemma_registry_insert_get<V>(
    before: Map<Seq<char>, V>,
    after: Map<Seq<char>, V>,
    name: Seq<char>,
    value: V,
    other: Seq<char>,
)
    requires
        after == before.insert(name, value),
        other != name,
    ensures
        after.contains_key(name),
        after[name] == value,
        after.contains_key(other) == before.contains_key(other),
        before.contains_key(other) ==> after[other] == before[other],
{
}

/// An "i64" parameter converts exactly as `str::parse::<i64>` reads it: every
/// parameter must be a decimal number from -9223372036854775808 to
/// 9223372036854775807, and each becomes `I64` of its number.
pub proof fn lemma_i64_params(
    param_type: Seq<char>,
    params: Seq<String>,
    float_bits: Seq<Option<u64>>,
    v: Seq<WasmVal>,
)
    requires
        spec_param_kind(text_bytes(param_type)) == ParamKind::I64,
        float_bits.len() == params.len(),
    ensures
        spec_params_ok(param_type, params, float_bits) <==> forall|i: int|
            0 <= i < params.len() ==> (spec_parse_int(#[trigger] text_bytes(params[i]@), true) matches Some(
                n,
            ) && -0x8000_0000_0000_0000 <= n <= 0x7fff_ffff_ffff_ffff),
        spec_params_are(param_type, params, float_bits, v) ==> v.len() == params.len() && forall|i: int|
            0 <= i < params.len() ==> v[i] == WasmVal::I64(
                spec_parse_int(#[trigger] text_bytes(params[i]@), true)->0 as i64,
            ),
{
}

/// An "i32" parameter converts exactly as `str::parse::<i32>` reads it: every
/// parameter must be a decimal number from -2147483648 to 2147483647, and each
/// becomes `I32` of its number.
pub proof fn lemma_i32_params(
    param_type: Seq<char>,
    params: Seq<String>,
    float_bits: Seq<Option<u64>>,
    v: Seq<WasmVal>,
)
    requires
        spec_param_kind(text_bytes(param_type)) == ParamKind::I32,
        float_bits.len() == params.len(),
    ensures
        spec_params_ok(param_type, params, float_bits) <==> forall|i: int|
            0 <= i < params.len() ==> (spec_parse_int(#[trigger] text_bytes(params[i]@), true) matches Some(
                n,
            ) && -0x8000_0000 <= n <= 0x7fff_ffff),
        spec_params_are(param_type, params, float_bits, v) ==> v.len() == params.len() && forall|i: int|
            0 <= i < params.len() ==> v[i] == WasmVal::I32(
                spec_parse_int(#[trigger] text_bytes(params[i]@), true)->0 as i32,
            ),
{
}

/// A "u128" parameter converts exactly as `str::parse::<u128>` reads it: every
/// parameter must be a decimal number from 0 to 2^128 - 1 (no `-` sign), and each
/// becomes `V128` of its number.
pub proof fn lemma_u128_params(
    param_type: Seq<char>,
    params: Seq<String>,
    float_bits: Seq<Option<u64>>,
    v: Seq<WasmVal>,
)
    requires
        spec_param_kind(text_bytes(param_type)) == ParamKind::U128,
        float_bits.len() == params.len(),
    ensures
        spec_params_ok(param_type, params, float_bits) <==> forall|i: int|
            0 <= i < params.len() ==> (spec_parse_int(#[trigger] text_bytes(params[i]@), false) matches Some(
                n,
            ) && 0 <= n <= 0xffff_ffff_ffff_ffff_ffff_ffff_ffff_ffff),
        spec_params_are(param_type, params, float_bits, v) ==> v.len() == params.len() && forall|i: int|
            0 <= i < params.len() ==> v[i] == WasmVal::V128(
                spec_parse_int(#[trigger] text_bytes(params[i]@), false)->0 as u128,
            ),
{
}

} // verus!
