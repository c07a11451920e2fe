//! The front ends' side of the protocol: how the daemon's answer (or the
//! failure to reach it) becomes what a front end shows or returns.
use vstd::prelude::*;
use webauthn_rs::prelude::{Base64UrlSafeData, PublicKeyCredential, RequestChallengeResponse};
use crate::ipc::{IpcRequest, IpcResponse, concat_text, starts_with};
use crate::vault::SlotMetadata;

verus! {

#[verifier::external_type_specification]
#[verifier::external_body]
pub struct ExJsonError(serde_json::Error);

/// The vault status as the front end shows it.
#[derive(Clone, Copy, Debug, PartialEq, Eq, Structural)]
pub struct UiStatus {
    pub has_secret: bool,
    pub count: usize,
    pub max_slots: usize,
}

/// One slot as the front end lists it; `entropy_bits` is the bit pattern of
/// the `f32` entropy score and `timestamp` whole seconds since the Unix epoch.
#[derive(Clone, Copy, Debug, PartialEq, Eq, Structural)]
pub struct UiSlot {
    pub id: u32,
    pub len: usize,
    pub entropy_bits: u32,
    pub timestamp: u64,
}

/// Nanoseconds in a second.
pub const NANOS_PER_SEC: u128 = 1_000_000_000;

/// Whole seconds in a duration of `nanos` nanoseconds, saturated at
/// `u64::MAX`.
pub open spec fn whole_seconds(nanos: u128) -> u64 {
    if nanos / NANOS_PER_SEC > u64::MAX {
        u64::MAX
    } else {
        (nanos / NANOS_PER_SEC) as u64
    }
}

/// How a slot's metadata is listed.
pub open spec fn ui_slot_of(m: SlotMetadata) -> UiSlot {
    UiSlot {
        id: m.id,
        len: m.len,
        entropy_bits: m.entropy_bits,
        timestamp: whole_seconds(m.timestamp_nanos),
    }
}

/// Whether a JSON text parses as a WebAuthn public-key credential.
pub uninterp spec fn credential_json_parses(json: Seq<char>) -> bool;

/// The credential a JSON text parses to, where it parses.
pub uninterp spec fn parsed_credential(json: Seq<char>) -> PublicKeyCredential;

/// Parses a credential assertion sent by the browser.
///
/// Calls `serde_json::from_str::<PublicKeyCredential>`; whether it succeeds
/// and what it parses to are functions of the text alone, named
/// `credential_json_parses` and `parsed_credential`.
#[verifier::external_body]
fn parse_credential(json: &str) -> (r: Result<PublicKeyCredential, serde_json::Error>)
    ensures
        r is Ok <==> credential_json_parses(json@),
        r matches Ok(c) ==> c == parsed_credential(json@),
{
    serde_json::from_str(json)
}

/// The JSON text `serde_json::to_string` writes for challenge options.
pub uninterp spec fn challenge_json_text(options: RequestChallengeResponse) -> Seq<char>;

/// Renders the challenge options as JSON for the browser.
///
/// Calls `serde_json::to_string`. The options are structs, strings,
/// integers, enums and base64 bytes without maps, so serialising them
/// cannot fail; the text depends on the options alone and is named
/// `challenge_json_text`.
#[verifier::external_body]
fn challenge_json(options: &RequestChallengeResponse) -> (r: Result<String, serde_json::Error>)
    ensures
        r is Ok,
        r matches Ok(t) ==> t@ == challenge_json_text(*options),
{
    serde_json::to_string(options)
}

/// The JSON string that `serde_json` writes for a `Base64UrlSafeData`
/// holding `bytes`: their URL-safe, unpadded Base64, in double quotes.
pub uninterp spec fn base64url_json(bytes: Seq<u8>) -> Seq<char>;

/// The challenge bytes that options ask the authenticator to sign
/// (`options.public_key.challenge`).
pub uninterp spec fn challenge_of(options: RequestChallengeResponse) -> Seq<u8>;

/// Reads the challenge that the relying party asks the authenticator to sign
/// (`options.public_key.challenge`), named `challenge_of`.
#[verifier::external_body]
fn challenge_bytes(options: &RequestChallengeResponse) -> (r: Vec<u8>)
    ensures
        r@ == challenge_of(*options),
{
    options.public_key.challenge.to_vec()
}

/// Serialises bytes as a `Base64UrlSafeData` with `serde_json::to_string`.
/// That type's `Serialize` writes a single string, so the call cannot fail,
/// and the text depends on the bytes alone; it is named `base64url_json`.
#[verifier::external_body]
fn base64url_json_of(bytes: &Vec<u8>) -> (r: Result<String, serde_json::Error>)
    ensures
        r is Ok,
        r matches Ok(t) ==> t@ == base64url_json(bytes@),
{
    serde_json::to_string(&Base64UrlSafeData::from(bytes.clone()))
}

/// The human-readable text of a JSON error, from its `Display`
/// implementation; the library does not see into the error.
#[verifier::external_body]
pub(crate) fn json_error_text(e: &serde_json::Error) -> (text: String) {
    format!("{}", e)
}

/// Whole seconds in `nanos` nanoseconds, saturated at `u64::MAX`.
pub fn seconds_of(nanos: u128) -> (s: u64)
    ensures
        s == whole_seconds(nanos),
{
    let secs = nanos / NANOS_PER_SEC;
    if secs > u64::MAX as u128 {
        u64::MAX
    } else {
        secs as u64
    }
}

/// The status to show, from the daemon's answer to `GetStatus` or the
/// error that kept it from arriving.
pub fn status_outcome(reply: Result<IpcResponse, String>) -> (r: Result<UiStatus, String>)
    ensures
        match reply {
            Ok(IpcResponse::Status { has_secret, count, max_slots }) => r == Ok::<UiStatus, String>(
                UiStatus { has_secret, count, max_slots },
            ),
            Ok(IpcResponse::Error { message }) => r == Err::<UiStatus, String>(message),
            Err(e) => r matches Err(m) && m@ == "Failed to connect to daemon: "@ + e@,
            _ => r matches Err(m) && m@ == "Unexpected response from daemon"@,
        },
{
    match reply {
        Ok(IpcResponse::Status { has_secret, count, max_slots }) => Ok(
            UiStatus { has_secret, count, max_slots },
        ),
        Ok(IpcResponse::Error { message }) => Err(message),
        Err(e) => Err(concat_text("Failed to connect to daemon: ", e.as_str())),
        Ok(_) => Err("Unexpected response from daemon".to_owned()),
    }
}

/// The slots to list, from the daemon's answer to `List` or the error that
/// kept it from arriving.
pub fn slots_outcome(reply: Result<IpcResponse, String>) -> (r: Result<Vec<UiSlot>, String>)
    ensures
        match reply {
            Ok(IpcResponse::List { slots }) => r matches Ok(ui) && ui@.len() == slots@.len()
                && forall|i: int| 0 <= i < ui@.len() ==> ui@[i] == ui_slot_of(#[trigger] slots@[i]),
            Ok(IpcResponse::Error { message }) => r == Err::<Vec<UiSlot>, String>(message),
            Err(e) => r matches Err(m) && m@ == "Daemon connection failed: "@ + e@,
            _ => r matches Err(m) && m@ == "Unexpected response from daemon"@,
        },
{
    match reply {
        Ok(IpcResponse::List { slots }) => {
            let mut ui: Vec<UiSlot> = Vec::new();
            let n = slots.len();
            for i in 0..n
                invariant
                    n == slots@.len(),
                    ui@.len() == i,
                    forall|j: int| 0 <= j < i ==> ui@[j] == ui_slot_of(#[trigger] slots@[j]),
            {
                let m = slots[i];
                ui.push(
                    UiSlot {
                        id: m.id,
                        len: m.len,
                        entropy_bits: m.entropy_bits,
                        timestamp: seconds_of(m.timestamp_nanos),
                    },
                );
            }
            Ok(ui)
        },
        Ok(IpcResponse::Error { message }) => Err(message),
        Err(e) => Err(concat_text("Daemon connection failed: ", e.as_str())),
        Ok(_) => Err("Unexpected response from daemon".to_owned()),
    }
}

/// The challenge to hand to the browser as JSON, from the daemon's answer to
/// `RequestChallenge` or the error that kept it from arriving.
pub fn challenge_outcome(reply: Result<IpcResponse, String>) -> (r: Result<String, String>)
    ensures
        match reply {
            Ok(IpcResponse::Challenge { options }) => r matches Ok(t) && t@ == challenge_json_text(
                *options,
            ),
            Ok(IpcResponse::Error { message }) => r == Err::<String, String>(message),
            Err(e) => r matches Err(m) && m@ == "IPC error: "@ + e@,
            _ => r matches Err(m) && m@ == "Unexpected response"@,
        },
{
    match reply {
        Ok(IpcResponse::Challenge { options }) => match challenge_json(&options) {
            Ok(payload) => Ok(payload),
            Err(e) => Err(concat_text("Failed to serialize challenge: ", json_error_text(&e).as_str())),
        },
        Ok(IpcResponse::Error { message }) => Err(message),
        Err(e) => Err(concat_text("IPC error: ", e.as_str())),
        Ok(_) => Err("Unexpected response".to_owned()),
    }
}

/// The credential with which the command line answers a challenge, given the
/// challenge as a JSON string `b64`: its id, raw id, authenticator data and
/// client data all carry the challenge, the signature is empty and there is
/// no user handle.
pub open spec fn answer_credential_text(b64: Seq<char>) -> Seq<char> {
    "{\"extensions\":{},\"id\":"@ + b64 + ",\"rawId\":"@ + b64
        + ",\"response\":{\"authenticatorData\":"@ + b64 + ",\"clientDataJSON\":"@ + b64
        + ",\"signature\":[],\"userHandle\":null},\"type\":\"public-key\"}"@
}

/// The answer credential, as JSON, for a challenge given as a JSON string.
pub fn answer_credential_json(b64: &str) -> (r: String)
    ensures
        r@ == answer_credential_text(b64@),
{
    let a = concat_text("{\"extensions\":{},\"id\":", b64);
    let b = concat_text(a.as_str(), ",\"rawId\":");
    let c = concat_text(b.as_str(), b64);
    let d = concat_text(c.as_str(), ",\"response\":{\"authenticatorData\":");
    let e = concat_text(d.as_str(), b64);
    let f = concat_text(e.as_str(), ",\"clientDataJSON\":");
    let g = concat_text(f.as_str(), b64);
    concat_text(g.as_str(), ",\"signature\":[],\"userHandle\":null},\"type\":\"public-key\"}")
}

/// The answer credential, as JSON, for the challenge in `options`: the
/// challenge bytes go in as URL-safe Base64.
pub fn challenge_answer(options: &RequestChallengeResponse) -> (r: String)
    ensures
        r@ == answer_credential_text(base64url_json(challenge_of(*options))),
{
    let bytes = challenge_bytes(options);
    match base64url_json_of(&bytes) {
        Ok(text) => answer_credential_json(text.as_str()),
        Err(_) => String::new(),
    }
}

/// What the clipboard is set back to once a restored secret's time there
/// is up: the content it held before the secret was restored, if it still
/// holds the secret; `None` (leave it alone) if something else was copied
/// meanwhile.
pub fn clipboard_after_timer(current: &str, secret: &str, prior: &str) -> (r: Option<String>)
    ensures
        r is Some <==> current@ == secret@,
        r matches Some(t) ==> t@ == prior@,
{
    if crate::monitor::text_equals(current, secret) {
        Some(prior.to_owned())
    } else {
        None
    }
}

/// The `VerifyAssertion` request for a credential assertion given as JSON;
/// an assertion that does not parse is refused.
pub fn assertion_request(assertion_json: &str) -> (r: Result<IpcRequest, String>)
    ensures
        r is Ok <==> credential_json_parses(assertion_json@),
        r matches Ok(req) ==> req is VerifyAssertion,
        r matches Ok(IpcRequest::VerifyAssertion { assertion }) ==> *assertion == parsed_credential(
            assertion_json@,
        ),
        r matches Err(m) ==> starts_with(m@, "Failed to parse credential assertion JSON: "@),
{
    match parse_credential(assertion_json) {
        Ok(credential) => Ok(IpcRequest::VerifyAssertion { assertion: Box::new(credential) }),
        Err(e) => {
            let text = json_error_text(&e);
            let m = concat_text("Failed to parse credential assertion JSON: ", text.as_str());
            proof {
                let p = "Failed to parse credential assertion JSON: "@;
                assert(m@.subrange(0, p.len() as int) =~= p);
            }
            Err(m)
        },
    }
}

/// The secret handed back, from the daemon's answer to `VerifyAssertion` or
/// the error that kept it from arriving.
pub fn secret_outcome(reply: Result<IpcResponse, String>) -> (r: Result<String, String>)
    ensures
        match reply {
            Ok(IpcResponse::Success { secret }) => r == Ok::<String, String>(secret),
            Ok(IpcResponse::Error { message }) => r == Err::<String, String>(message),
            Err(e) => r matches Err(m) && m@ == "IPC connection error: "@ + e@,
            _ => r matches Err(m) && m@ == "Unexpected response from daemon"@,
        },
{
    match reply {
        Ok(IpcResponse::Success { secret }) => Ok(secret),
        Ok(IpcResponse::Error { message }) => Err(message),
        Err(e) => Err(concat_text("IPC connection error: ", e.as_str())),
        Ok(_) => Err("Unexpected response from daemon".to_owned()),
    }
}

} // verus!
