//! What a service is configured with, and the addresses built from it.
//!
//! The values themselves come from the environment of the process; reading
//! them is the caller's business.

use vstd::prelude::*;
use vstd::string::StringExecFns;
use crate::names::{decimal, decimal_text};
use crate::numerals::{after_first, digits_value, lemma_decimal_reads_back, numeral};

verus! {

/// What reading a port number from a text comes to: after a `+`, if the text
/// begins with one, there must be a numeral and nothing else, and the number
/// it stands for must be a port number.
pub open spec fn parsed_u16(text: Seq<char>) -> Option<u16> {
    let digits = if text.len() > 0 && text[0] == '+' {
        after_first(text)
    } else {
        text
    };
    if numeral(digits) && digits_value(digits) <= u16::MAX {
        Some(digits_value(digits) as u16)
    } else {
        None
    }
}

/// Calls `str::parse::<u16>`.  Trusted: it accepts an optional `+` followed
/// by one or more decimal digits and nothing else, and gives the number the
/// digits spell where that is at most 65535; everything else is an error.
#[verifier::external_body]
fn parse_u16(text: &str) -> (number: Option<u16>)
    ensures
        number == parsed_u16(text@),
{
    text.parse::<u16>().ok()
}

/// The port a variable asks for: none where the variable is not set or does
/// not hold a port number.
pub open spec fn port_wanted(value: Option<Seq<char>>) -> Option<u16> {
    match value {
        Some(text) => parsed_u16(text),
        None => None,
    }
}

/// The port a variable asks for.
pub fn port_of(value: Option<&str>) -> (port: Option<u16>)
    ensures
        port == port_wanted(
            match value {
                Some(text) => Some(text@),
                None => None,
            },
        ),
{
    match value {
        Some(text) => parse_u16(text),
        None => None,
    }
}

/// The address a service listens on: every interface, at `port`.
pub open spec fn listen_address_text(port: u16) -> Seq<char> {
    "0.0.0.0:"@ + decimal(port as nat)
}

/// Where the storage service serves the video at `video_path`.
pub open spec fn storage_video_url_text(host: Seq<char>, port: u16, video_path: Seq<char>) -> Seq<
    char,
> {
    "http://"@ + host + ":"@ + decimal(port as nat) + "/video?"@ + video_path
}

/// Where the storage service takes uploads.
pub open spec fn storage_upload_url_text(host: Seq<char>, port: u16) -> Seq<char> {
    "http://"@ + host + ":"@ + decimal(port as nat) + "/store"@
}

/// The address a service listens on.
pub fn listen_address(port: u16) -> (address: String)
    ensures
        address@ == listen_address_text(port),
{
    let digits = decimal_text(port as u64);
    "0.0.0.0:".to_owned().concat(digits.as_str())
}

fn storage_origin(host: &str, port: u16) -> (origin: String)
    ensures
        origin@ == "http://"@ + host@ + ":"@ + decimal(port as nat),
{
    let digits = decimal_text(port as u64);
    "http://".to_owned().concat(host).concat(":").concat(digits.as_str())
}

/// Where the storage service serves the video at `video_path`.
pub fn storage_video_url(host: &str, port: u16, video_path: &str) -> (url: String)
    ensures
        url@ == storage_video_url_text(host@, port, video_path@),
{
    storage_origin(host, port).concat("/video?").concat(video_path)
}

/// Where the storage service takes uploads.
pub fn storage_upload_url(host: &str, port: u16) -> (url: String)
    ensures
        url@ == storage_upload_url_text(host@, port),
{
    storage_origin(host, port).concat("/store")
}

/// A port written out in decimal digits reads back as that port.
pub proof fn lemma_written_port_reads_back(port: u16)
    ensures
        parsed_u16(decimal(port as nat)) == Some(port),
{
    lemma_decimal_reads_back(port as nat);
}

} // verus!
