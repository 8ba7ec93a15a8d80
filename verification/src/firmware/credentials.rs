//! The Wi-Fi credentials that the firmware keeps in its key-value store.

use vstd::prelude::*;
use crate::text::str_from_utf8;

verus! {

broadcast use vstd::string::group_string_axioms;

/// The key under which the SSID is stored.
pub const SSID_KEY: &'static str = "ssid";

/// The key under which the pre-shared key is stored.
pub const PSK_KEY: &'static str = "psk";

/// The namespace of the store.
pub const STORE_NAMESPACE: &'static str = "wifi-config";

/// Turns the stored SSID and pre-shared key back into text; `None` when either
/// is not valid UTF-8.
pub fn stored_credentials(ssid: &[u8], psk: &[u8]) -> (r: Option<(String, String)>)
    ensures
        r is Some <==> vstd::utf8::valid_utf8(ssid@) && vstd::utf8::valid_utf8(psk@),
        r matches Some((s, p)) ==> vstd::utf8::encode_utf8(s@) == ssid@
            && vstd::utf8::encode_utf8(p@) == psk@,
{
    let p = match str_from_utf8(psk) {
        Some(p) => p,
        None => return None,
    };
    let s = match str_from_utf8(ssid) {
        Some(s) => s,
        None => return None,
    };
    Some((String::from_str(s), String::from_str(p)))
}


/// Where the firmware takes its Wi-Fi credentials from at start-up.
pub enum CredentialsSource {
    /// The store holds them: these.
    Stored { ssid: String, psk: String },
    /// The store holds no SSID: ask on the serial console and store them.
    Configure,
    /// The store holds an SSID but no pre-shared key.
    MissingPsk,
    /// The stored SSID or key is not text.
    NotText,
}

/// Decides the source of the credentials from what the store holds under the
/// SSID key and, when there is an SSID, under the key of the pre-shared key.
pub fn credentials_source(ssid: Option<&[u8]>, psk: Option<&[u8]>) -> (r: CredentialsSource)
    ensures
        match ssid {
            None => r is Configure,
            Some(s) => match psk {
                None => r is MissingPsk,
                Some(p) => if vstd::utf8::valid_utf8(s@) && vstd::utf8::valid_utf8(p@) {
                    r matches CredentialsSource::Stored { ssid: a, psk: b }
                        && vstd::utf8::encode_utf8(a@) == s@ && vstd::utf8::encode_utf8(b@) == p@
                } else {
                    r is NotText
                },
            },
        },
{
    match ssid {
        None => CredentialsSource::Configure,
        Some(s) => match psk {
            None => CredentialsSource::MissingPsk,
            Some(p) => match stored_credentials(s, p) {
                Some((ssid, psk)) => CredentialsSource::Stored { ssid, psk },
                None => CredentialsSource::NotText,
            },
        },
    }
}

} // verus!
