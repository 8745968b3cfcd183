//! What pairing prints.
use serde_json::Value;
use vstd::prelude::*;

use crate::json;
use crate::qr;
use crate::qr::{qr_text, EccLevel};

verus! {

/// How to show a pair payload.
#[derive(Debug)]
pub struct PairArgs {
    /// Render a QR code for the payload too.
    pub qr: bool,
}

/// What goes to the standard output, and why pairing failed after that, if it did.
#[derive(Debug)]
pub struct PairOutput {
    pub text: String,
    pub error: Option<String>,
}

/// What pairing prints for a payload with this text: the text on a line of its own, and, where
/// asked for, the QR code after an empty line.
pub open spec fn prints(args: PairArgs, json: Seq<char>, r: PairOutput) -> bool {
    match qr::encoding(json, EccLevel::Medium) {
        Ok(modules) if args.qr => {
            &&& r.text@ == json + "\n"@ + "\n"@ + qr::picture(modules)
            &&& r.error is None
        },
        Err(reason) if args.qr => {
            &&& r.text@ == json + "\n"@ + "\n"@
            &&& r.error is Some
            &&& r.error->0@ == "encoding QR: "@ + reason
        },
        _ => {
            &&& r.text@ == json + "\n"@
            &&& r.error is None
        },
    }
}

/// Shows a pair payload, given as JSON: on a line of its own, and, where asked for, as a QR code
/// after an empty line. A payload that no code can hold is still shown as JSON.
pub fn pair_output(args: &PairArgs, json: &str) -> (r: PairOutput)
    ensures
        prints(*args, json@, r),
{
    let mut text = json.to_string();
    text.append("\n");
    if !args.qr {
        return PairOutput { text, error: None };
    }
    text.append("\n");
    match qr_text(json) {
        Ok(code) => {
            text.append(code.as_str());
            PairOutput { text, error: None }
        },
        Err(message) => PairOutput { text, error: Some(message) },
    }
}

/// Shows a pair payload as compact JSON, as [`pair_output`] does.
pub fn payload_output(args: &PairArgs, payload: &Value) -> (r: Result<
    PairOutput,
    serde_json::Error,
>)
    ensures
        r is Ok,
        prints(*args, json::compact_form(json::json_of(*payload)), r->Ok_0),
{
    match json::to_compact(payload) {
        Ok(text) => Ok(pair_output(args, text.as_str())),
        Err(error) => Err(error),
    }
}

} // verus!
