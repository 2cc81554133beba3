pub mod server;

use vstd::prelude::*;

verus! {

/// The port the service listens on.
pub const PORT: u16 = 3001;

pub fn get_port() -> (r: u16)
    ensures
        r == PORT,
{
    PORT
}

/// A request to call an exported function of a registered wasm module.
pub struct CallConfigRequest {
    /// The registered wasm file name.
    pub wasm_name: String,
    /// The instance name; it must be unique.
    pub task_unique_name: String,
    /// The exported function to call.
    pub export_func: String,
    /// The type of the parameters.
    pub param_type: String,
    pub params: Vec<String>,
    /// How many results the function gives.
    pub results_length: String,
    /// Expected execution time in milliseconds; it must be less than the deadline.
    pub expected_execution_time: String,
    /// Relative deadline in milliseconds.
    pub relative_deadline: String,
}

/// A request to time a call of an exported function of a registered wasm module.
pub struct TestRequest {
    pub wasm_name: String,
    pub export_func: String,
    pub param_type: String,
    pub params: Vec<String>,
    pub results_length: String,
    /// Expected deadline in milliseconds.
    pub expected_deadline: String,
}

} // verus!
