//! The setup wizard's rules: the defaults it offers, how it checks each
//! answer and how it turns answers into configuration values. Prompting and
//! writing the file stay with the caller.

use vstd::prelude::*;

use crate::domain::{parse_utc_offset, utc_offset_of};
use crate::text::{
    chars_of, dec_padded, eq_str, has_prefix_str, lower_chars, lower_seq, push_dec_padded, push_str,
    starts_with, trim, trim_chars, trim_str, string_of,
};

verus! {

/// The device code offered for the `number`th device: `MOCK-GATE-NN`.
pub open spec fn mock_code_text(number: nat) -> Seq<char> {
    "MOCK-GATE-"@ + dec_padded(number, 2)
}

pub fn mock_device_code(number: usize) -> (r: String)
    ensures
        r@ == mock_code_text(number as nat),
{
    let mut s = String::from_str("MOCK-GATE-");
    push_dec_padded(&mut s, number as u64, 2);
    s
}

/// The API key offered for the `number`th device: `mock-key` for the first,
/// `mock-key-NN` after.
pub open spec fn mock_key_text(number: nat) -> Seq<char> {
    if number == 1 {
        "mock-key"@
    } else {
        "mock-key-"@ + dec_padded(number, 2)
    }
}

pub fn mock_api_key(number: usize) -> (r: String)
    ensures
        r@ == mock_key_text(number as nat),
{
    if number == 1 {
        String::from_str("mock-key")
    } else {
        let mut s = String::from_str("mock-key-");
        push_dec_padded(&mut s, number as u64, 2);
        s
    }
}

/// The webhook URL offered on a LAN host (the mock HRMS's).
pub open spec fn default_webhook_text(lan_host: Seq<char>) -> Seq<char> {
    "http://"@ + lan_host + ":8800/webhook"@
}

pub fn default_webhook_url(lan_host: &str) -> (r: String)
    ensures
        r@ == default_webhook_text(lan_host@),
{
    let mut s = String::from_str("http://");
    push_str(&mut s, lan_host);
    push_str(&mut s, ":8800/webhook");
    s
}

/// The HRMS base URL offered on a LAN host.
pub open spec fn default_hrms_base_text(lan_host: Seq<char>) -> Seq<char> {
    "http://"@ + lan_host + ":8800/api/v1"@
}

pub fn default_hrms_base_url(lan_host: &str) -> (r: String)
    ensures
        r@ == default_hrms_base_text(lan_host@),
{
    let mut s = String::from_str("http://");
    push_str(&mut s, lan_host);
    push_str(&mut s, ":8800/api/v1");
    s
}

/// An answer that names an HTTP(S) URL: it starts with `http://` or
/// `https://` once trimmed.
pub open spec fn is_url_answer(input: Seq<char>) -> bool {
    starts_with(trim(input), "http://"@) || starts_with(trim(input), "https://"@)
}

pub fn url_answer_ok(input: &str) -> (r: bool)
    ensures
        r == is_url_answer(input@),
{
    let t = trim_chars(chars_of(input).as_slice());
    has_prefix_str(t.as_slice(), "http://") || has_prefix_str(t.as_slice(), "https://")
}

/// A device timeout the wizard accepts: 1 to 120 seconds.
pub fn device_timeout_ok(seconds: u64) -> (r: bool)
    ensures
        r == (1 <= seconds <= 120),
{
    1 <= seconds && seconds <= 120
}

/// An interval the wizard accepts: at least 5 seconds.
pub fn interval_ok(seconds: u64) -> (r: bool)
    ensures
        r == (seconds >= 5),
{
    seconds >= 5
}

/// A required answer: not blank.
pub fn required_ok(input: &str) -> (r: bool)
    ensures
        r == (trim(input@).len() > 0),
{
    let t = trim_str(input);
    !t.as_str().is_empty()
}

/// A device timezone answer the wizard accepts: UTC or a fixed offset.
pub fn timezone_answer_ok(input: &str) -> (r: bool)
    ensures
        r == (utc_offset_of(input@) is Some),
{
    parse_utc_offset(input).is_some()
}

/// The timezone kept in the configuration: none for blank or `UTC` (in any
/// case), else the trimmed answer.
pub open spec fn timezone_value(input: Seq<char>) -> Option<Seq<char>> {
    if trim(input).len() == 0 || lower_seq(trim(input)) == "utc"@ {
        None
    } else {
        Some(trim(input))
    }
}

pub fn device_timezone_value(input: &str) -> (r: Option<String>)
    ensures
        match r {
            Some(t) => timezone_value(input@) == Some(t@),
            None => timezone_value(input@) is None,
        },
{
    let t = trim_chars(chars_of(input).as_slice());
    let l = lower_chars(t.as_slice());
    if t.len() == 0 || eq_str(l.as_slice(), "utc") {
        None
    } else {
        Some(string_of(t.as_slice()))
    }
}

/// The HRMS API token kept: none for a blank answer, else the trimmed
/// answer.
pub open spec fn token_value(input: Seq<char>) -> Option<Seq<char>> {
    if trim(input).len() == 0 {
        None
    } else {
        Some(trim(input))
    }
}

pub fn api_token_value(input: &str) -> (r: Option<String>)
    ensures
        match r {
            Some(t) => token_value(input@) == Some(t@),
            None => token_value(input@) is None,
        },
{
    let t = trim_str(input);
    if t.as_str().is_empty() {
        None
    } else {
        Some(t)
    }
}

} // verus!
