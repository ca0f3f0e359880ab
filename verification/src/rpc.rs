//! Requests of a helper process to the editor: the methods it may call by
//! name, and the numbered errors it is answered with.

use vstd::prelude::*;
use vstd::string::*;
use crate::text::str_eq;

verus! {

/// The request named a method that does not exist.
pub const METHOD_NOT_FOUND: i32 = -32601;

/// The parameters of the request could not be read.
pub const INVALID_PARAMS: i32 = -32602;

/// The method was called and failed.
pub const INTERNAL_ERROR: i32 = -32603;

/// The version tag of every answer.
pub const RPC_VERSION: &'static str = "2.0";

/// A method of the editor that a helper process may call.
#[derive(Debug, PartialEq, Eq, Structural, Clone, Copy)]
pub enum RpcMethod {
    GetCurrentCode,
    GetPreviewScreenshot,
    ValidateEdit,
    ApplyEdit,
    GetDiagnostics,
    TriggerRender,
}

/// An error as it is sent back: its number and its message.
#[derive(Debug)]
pub struct RpcError {
    pub code: i32,
    pub message: String,
}

impl RpcMethod {
    /// The method with the given name, if there is one.
    pub open spec fn named(name: Seq<char>) -> Option<RpcMethod> {
        if name == "get_current_code"@ {
            Some(RpcMethod::GetCurrentCode)
        } else if name == "get_preview_screenshot"@ {
            Some(RpcMethod::GetPreviewScreenshot)
        } else if name == "validate_edit"@ {
            Some(RpcMethod::ValidateEdit)
        } else if name == "apply_edit"@ {
            Some(RpcMethod::ApplyEdit)
        } else if name == "get_diagnostics"@ {
            Some(RpcMethod::GetDiagnostics)
        } else if name == "trigger_render"@ {
            Some(RpcMethod::TriggerRender)
        } else {
            None
        }
    }

    /// Finds a method by its name; any other name is answered with
    /// `METHOD_NOT_FOUND` and a message that quotes it.
    pub fn from_name(name: &str) -> (r: Result<RpcMethod, RpcError>)
        ensures
            match r {
                Ok(method) => RpcMethod::named(name@) == Some(method),
                Err(e) => RpcMethod::named(name@) is None && e.code == METHOD_NOT_FOUND
                    && e.message@ == "Method not found: "@ + name@,
            },
    {
        if str_eq(name, "get_current_code") {
            Ok(RpcMethod::GetCurrentCode)
        } else if str_eq(name, "get_preview_screenshot") {
            Ok(RpcMethod::GetPreviewScreenshot)
        } else if str_eq(name, "validate_edit") {
            Ok(RpcMethod::ValidateEdit)
        } else if str_eq(name, "apply_edit") {
            Ok(RpcMethod::ApplyEdit)
        } else if str_eq(name, "get_diagnostics") {
            Ok(RpcMethod::GetDiagnostics)
        } else if str_eq(name, "trigger_render") {
            Ok(RpcMethod::TriggerRender)
        } else {
            Err(
                RpcError {
                    code: METHOD_NOT_FOUND,
                    message: "Method not found: ".to_string().concat(name),
                },
            )
        }
    }
}

/// The error for parameters that could not be read, with what the reader
/// said of them.
pub fn invalid_params(detail: &str) -> (r: RpcError)
    ensures
        r.code == INVALID_PARAMS,
        r.message@ == "Invalid params: "@ + detail@,
{
    RpcError { code: INVALID_PARAMS, message: "Invalid params: ".to_string().concat(detail) }
}

/// The error for a method that failed, with its message.
pub fn internal_error(message: String) -> (r: RpcError)
    ensures
        r.code == INTERNAL_ERROR,
        r.message == message,
{
    RpcError { code: INTERNAL_ERROR, message }
}

} // verus!
