//! The hardware-control-bus value protocol: the fixed control codes, the
//! exact command lines that read and write one control value, and the
//! reading of a captured value query.

use vstd::prelude::*;
use vstd::string::*;
use crate::text::{dec_str, parse_u8, push_u32_dec, split_ws_seq, str_split_ws, u8_parse_spec};

verus! {

/// The control code for brightness.
pub const VCP_BRIGHTNESS: &'static str = "10";

/// The control code for contrast.
pub const VCP_CONTRAST: &'static str = "12";

/// The value one captured terse value query yields: its fourth
/// whitespace token read as a byte.
pub open spec fn vcp_value_spec(text: Seq<char>) -> Option<u8> {
    let toks = split_ws_seq(text);
    if toks.len() >= 4 {
        u8_parse_spec(toks[3])
    } else {
        None
    }
}

/// Reads one control value out of a captured value query: the fourth
/// whitespace token of a successful capture, when it parses as a byte.
pub fn read_vcp(capture: &Result<String, String>) -> (r: Option<u8>)
    ensures
        r == match capture {
            Ok(o) => vcp_value_spec(o@),
            Err(_) => None::<u8>,
        },
{
    match capture {
        Ok(o) => {
            let toks = str_split_ws(o.as_str());
            if toks.len() >= 4 {
                proof {
                    assert(toks.deep_view()[3] == toks@[3]@);
                }
                parse_u8(toks[3].as_str())
            } else {
                None
            }
        },
        Err(_) => None,
    }
}

/// The command whose captured output `read_vcp` reads.
pub fn read_vcp_command(display_id: &str, code: &str) -> (r: Vec<String>)
    ensures
        r.deep_view() == seq![
            "ddcutil"@, "getvcp"@, code@, "--display"@, display_id@, "--terse"@,
        ],
{
    let mut v: Vec<String> = Vec::new();
    v.push(String::from_str("ddcutil"));
    v.push(String::from_str("getvcp"));
    v.push(code.to_owned());
    v.push(String::from_str("--display"));
    v.push(display_id.to_owned());
    v.push(String::from_str("--terse"));
    proof {
        assert(v.deep_view() =~= seq![
            "ddcutil"@, "getvcp"@, code@, "--display"@, display_id@, "--terse"@,
        ]);
    }
    v
}

/// The command that writes one control value.
pub fn set_vcp(display_id: &str, code: &str, value: u8) -> (r: Vec<String>)
    ensures
        r.deep_view() == seq![
            "ddcutil"@, "setvcp"@, code@, dec_str(value as nat), "--display"@,
            display_id@,
        ],
{
    let mut value_str = String::new();
    push_u32_dec(&mut value_str, value as u32);
    let mut v: Vec<String> = Vec::new();
    v.push(String::from_str("ddcutil"));
    v.push(String::from_str("setvcp"));
    v.push(code.to_owned());
    v.push(value_str);
    v.push(String::from_str("--display"));
    v.push(display_id.to_owned());
    proof {
        assert(v.deep_view() =~= seq![
            "ddcutil"@, "setvcp"@, code@, dec_str(value as nat), "--display"@,
            display_id@,
        ]);
    }
    v
}

/// The probe that asks only whether the tool can be invoked at all.
pub fn probe_command() -> (r: Vec<String>)
    ensures
        r.deep_view() == seq!["ddcutil"@, "--version"@],
{
    let mut v: Vec<String> = Vec::new();
    v.push(String::from_str("ddcutil"));
    v.push(String::from_str("--version"));
    proof {
        assert(v.deep_view() =~= seq!["ddcutil"@, "--version"@]);
    }
    v
}

/// The detection command whose captured output the parser reads.
pub fn detect_command() -> (r: Vec<String>)
    ensures
        r.deep_view() == seq!["ddcutil"@, "detect"@],
{
    let mut v: Vec<String> = Vec::new();
    v.push(String::from_str("ddcutil"));
    v.push(String::from_str("detect"));
    proof {
        assert(v.deep_view() =~= seq!["ddcutil"@, "detect"@]);
    }
    v
}

} // verus!
