//! Passkey authentication and the daemon's vault behind it: a secret leaves
//! the vault only through a challenge that was started before and is used
//! once.
use vstd::prelude::*;
use std::collections::HashMap;
use std::sync::Arc;
use url::Url;
use webauthn_rs::prelude::{
    AuthenticationResult, Passkey, PasskeyAuthentication, PublicKeyCredential,
    RequestChallengeResponse, Webauthn, WebauthnBuilder, WebauthnError,
};
use crate::client::challenge_of;
use crate::config::AppConfig;

verus! {

broadcast use vstd::std_specs::hash::group_hash_axioms;

#[verifier::external_type_specification]
#[verifier::external_body]
pub struct ExUrl(Url);

#[verifier::external_type_specification]
#[verifier::external_body]
pub struct ExUrlParseError(url::ParseError);

#[verifier::external_type_specification]
#[verifier::external_body]
pub struct ExWebauthn(Webauthn);

#[verifier::external_type_specification]
#[verifier::external_body]
pub struct ExWebauthnBuilder<'a>(WebauthnBuilder<'a>);

#[verifier::external_type_specification]
#[verifier::external_body]
pub struct ExWebauthnError(WebauthnError);

#[verifier::external_type_specification]
#[verifier::external_body]
pub struct ExPasskey(Passkey);

#[verifier::external_type_specification]
#[verifier::external_body]
pub struct ExPasskeyAuthentication(PasskeyAuthentication);

#[verifier::external_type_specification]
#[verifier::external_body]
pub struct ExRequestChallengeResponse(RequestChallengeResponse);

#[verifier::external_type_specification]
#[verifier::external_body]
pub struct ExPublicKeyCredential(PublicKeyCredential);

#[verifier::external_type_specification]
#[verifier::external_body]
pub struct ExAuthenticationResult(AuthenticationResult);

/// The text a parsed URL holds: its serialization (what `Url::as_str`
/// returns).
pub uninterp spec fn url_text(url: Url) -> Seq<char>;

/// What `Url::parse` makes of a text: the serialization of the URL it
/// parses to, or nothing when it refuses the text.
pub uninterp spec fn parsed_url(text: Seq<char>) -> Option<Seq<char>>;

/// Whether `WebauthnBuilder::new` accepts a relying-party identifier for an
/// origin (given by its serialization): the crate checks that the origin's
/// domain is the identifier or ends in `.` followed by it.
pub uninterp spec fn rp_id_fits_origin(rp_id: Seq<char>, origin: Seq<char>) -> bool;

/// The settings a relying-party builder holds: identifier, display name
/// (the identifier until one is set) and allowed origin.
pub uninterp spec fn builder_settings(builder: WebauthnBuilder) -> Seq<Seq<char>>;

/// The settings a relying party holds: identifier, display name and
/// allowed origin.
pub uninterp spec fn webauthn_settings(wa: Webauthn) -> Seq<Seq<char>>;

/// Parses an origin such as `http://localhost`.
///
/// Calls `url::Url::parse`; its outcome is a function of the text alone,
/// named `parsed_url`, and a parsed URL holds that serialization.
#[verifier::external_body]
fn parse_url(text: &str) -> (r: Result<Url, url::ParseError>)
    ensures
        r is Ok <==> parsed_url(text@) is Some,
        r matches Ok(u) ==> parsed_url(text@) == Some(url_text(u)),
{
    Url::parse(text)
}

/// Starts configuring a relying party for the identifier and origin.
///
/// Calls `webauthn_rs::WebauthnBuilder::new`, which accepts when the
/// origin's domain is `rp_id` or ends in `.rp_id` (named
/// `rp_id_fits_origin`) and then holds `rp_id` as identifier, no display
/// name (so the identifier stands for it) and the origin.
#[verifier::external_body]
fn webauthn_builder_new<'a>(
    rp_id: &'a str,
    origin: &'a Url,
) -> (r: Result<WebauthnBuilder<'a>, WebauthnError>)
    ensures
        r is Ok <==> rp_id_fits_origin(rp_id@, url_text(*origin)),
        r matches Ok(b) ==> builder_settings(b) == seq![rp_id@, rp_id@, url_text(*origin)],
{
    WebauthnBuilder::new(rp_id, origin)
}

/// Sets the relying party's display name.
///
/// Calls `webauthn_rs::WebauthnBuilder::rp_name`, which only records the
/// name.
#[verifier::external_body]
fn webauthn_builder_rp_name<'a>(builder: WebauthnBuilder<'a>, rp_name: &'a str) -> (r: WebauthnBuilder<'a>)
    ensures
        builder_settings(r) == builder_settings(builder).update(1, rp_name@),
{
    builder.rp_name(rp_name)
}

/// Finishes the configuration of a relying party.
///
/// Calls `webauthn_rs::WebauthnBuilder::build`, whose source always returns
/// `Ok` with a relying party holding the builder's identifier, display name
/// and origin.
#[verifier::external_body]
fn webauthn_builder_build(builder: WebauthnBuilder) -> (r: Result<Webauthn, WebauthnError>)
    ensures
        r is Ok,
        r is Ok ==> webauthn_settings(r->Ok_0) == builder_settings(builder),
{
    builder.build()
}

/// The identifiers of the credentials a started ceremony accepts an answer
/// from, in the order they were allowed.
pub uninterp spec fn allowed_credential_ids(state: PasskeyAuthentication) -> Seq<Seq<u8>>;

/// The challenge a started ceremony expects its answer to sign.
pub uninterp spec fn ceremony_challenge(state: PasskeyAuthentication) -> Seq<u8>;

/// The credential identifier of a passkey.
pub uninterp spec fn passkey_cred_id(p: Passkey) -> Seq<u8>;

/// The credential identifiers that challenge options tell the client it may
/// answer with, in order.
pub uninterp spec fn options_allowed_ids(options: RequestChallengeResponse) -> Seq<Seq<u8>>;

/// Starts a passkey authentication ceremony.
///
/// Calls `webauthn_rs::Webauthn::start_passkey_authentication`. In the
/// crate's source this always returns `Ok` (the challenge builder is given a
/// verification policy, so it cannot fail, and issuing the challenge has no
/// error path). The options and the state are built from one random
/// challenge and one list of credentials: the options carry the challenge
/// the state expects, and both list the passkeys' credential identifiers,
/// in the order given. The challenge bytes themselves are random and not
/// stated. The
/// call panics only for an authenticator timeout above `u32::MAX`
/// milliseconds; the library never sets a timeout, so its relying parties
/// keep the crate's default of 300 seconds.
#[verifier::external_body]
fn start_passkey_authentication(
    wa: &Webauthn,
    creds: &[Passkey],
) -> (r: Result<(RequestChallengeResponse, PasskeyAuthentication), WebauthnError>)
    ensures
        r is Ok,
        r is Ok ==> challenge_of(r->Ok_0.0) == ceremony_challenge(r->Ok_0.1),
        r is Ok ==> allowed_credential_ids(r->Ok_0.1) == creds@.map_values(
            |p: Passkey| passkey_cred_id(p),
        ),
        r is Ok ==> options_allowed_ids(r->Ok_0.0) == allowed_credential_ids(r->Ok_0.1),
{
    wa.start_passkey_authentication(creds)
}

/// Whether a relying party accepts a passkey assertion as the answer to a
/// started ceremony (what `Webauthn::finish_passkey_authentication` decides).
pub uninterp spec fn passkey_assertion_accepted(
    wa: Webauthn,
    assertion: PublicKeyCredential,
    state: PasskeyAuthentication,
) -> bool;

/// Checks a passkey assertion against the state of a started ceremony.
///
/// Calls `webauthn_rs::Webauthn::finish_passkey_authentication`. In the
/// crate's source the verdict depends on the relying party, the assertion
/// and the ceremony's state alone (no clock, no randomness); it is named
/// `passkey_assertion_accepted`. The answer is first looked up among the
/// credentials the ceremony allowed and refused (`CredentialNotFound`) when
/// none carries its identifier, so a ceremony that allowed no credential
/// never succeeds.
#[verifier::external_body]
fn finish_passkey_authentication(
    wa: &Webauthn,
    assertion: &PublicKeyCredential,
    state: &PasskeyAuthentication,
) -> (r: Result<AuthenticationResult, WebauthnError>)
    ensures
        r is Ok <==> passkey_assertion_accepted(*wa, *assertion, *state),
        r is Ok ==> allowed_credential_ids(*state).len() > 0,
{
    wa.finish_passkey_authentication(assertion, state)
}

/// A copy of a passkey.
///
/// Calls the derived `Clone` of `webauthn_rs::prelude::Passkey`, a plain
/// data type, so the copy equals the original.
#[verifier::external_body]
pub(crate) fn clone_passkey(p: &Passkey) -> (r: Passkey)
    ensures
        r == *p,
{
    p.clone()
}

/// The human-readable text of a WebAuthn error.
///
/// Renders the error with its `Display` implementation; the text depends on
/// the error's variant, which the library does not see into.
#[verifier::external_body]
pub(crate) fn webauthn_error_text(e: &WebauthnError) -> (text: String) {
    format!("{}", e)
}

/// Whether a JSON text parses as a list of passkeys.
pub uninterp spec fn passkeys_json_parses(json: Seq<char>) -> bool;

/// The passkeys a JSON text parses to, in order, where it parses.
pub uninterp spec fn parsed_passkeys(json: Seq<char>) -> Seq<Passkey>;

/// Parses a JSON list of passkeys (`serde_json::from_str::<Vec<Passkey>>`);
/// whether it succeeds and what it gives depend on the text alone, named
/// `passkeys_json_parses` and `parsed_passkeys`.
#[verifier::external_body]
fn parse_passkeys(json: &str) -> (r: Result<Vec<Passkey>, serde_json::Error>)
    ensures
        r is Ok <==> passkeys_json_parses(json@),
        r matches Ok(v) ==> v@ == parsed_passkeys(json@),
{
    serde_json::from_str(json)
}

/// The passkeys registered to unlock the vault, from the JSON list that
/// holds them; a text that is not such a list is refused with the parser's
/// message.
pub fn registered_passkeys(json: &str) -> (r: Result<Vec<Passkey>, String>)
    ensures
        r is Ok <==> passkeys_json_parses(json@),
        r matches Ok(v) ==> v@ == parsed_passkeys(json@),
{
    match parse_passkeys(json) {
        Ok(v) => Ok(v),
        Err(e) => Err(crate::client::json_error_text(&e)),
    }
}

/// Why an authenticator could not be set up.
pub enum AuthError {
    /// The relying-party origin is not a URL.
    InvalidOrigin,
    /// The WebAuthn library refused the configuration.
    Webauthn(WebauthnError),
}

/// A WebAuthn relying party that runs passkey ceremonies.
pub struct PasskeyAuthenticator {
    wa: Arc<Webauthn>,
}

/// The relying party's settings: identifier, display name and origin.
pub open spec fn rp_settings(rp_id: Seq<char>, rp_name: Seq<char>, origin: Seq<char>) -> Seq<
    Seq<char>,
> {
    seq![rp_id, rp_name, origin]
}

/// A relying party's settings list its identifier, its display name and its
/// origin, in that order, each as given: the display name is the one asked
/// for, whatever the identifier.
pub proof fn lemma_settings_keep_each_part(rp_id: Seq<char>, rp_name: Seq<char>, origin: Seq<char>)
    ensures
        rp_settings(rp_id, rp_name, origin).len() == 3,
        rp_settings(rp_id, rp_name, origin)[0] == rp_id,
        rp_settings(rp_id, rp_name, origin)[1] == rp_name,
        rp_settings(rp_id, rp_name, origin)[2] == origin,
        rp_name != rp_id ==> rp_settings(rp_id, rp_name, origin) != rp_settings(rp_id, rp_id, origin),
{
    if rp_name != rp_id {
        assert(rp_settings(rp_id, rp_name, origin)[1] != rp_settings(rp_id, rp_id, origin)[1]);
    }
}

impl PasskeyAuthenticator {
    /// The settings of the relying party this authenticator acts for.
    pub closed spec fn settings(&self) -> Seq<Seq<char>> {
        webauthn_settings(*self.wa)
    }

    /// The relying party this authenticator acts for.
    pub closed spec fn relying_party(&self) -> Webauthn {
        *self.wa
    }

    /// A relying party for `rp_id` at `rp_origin`, named after its
    /// identifier. An origin that is not a URL is refused with
    /// `InvalidOrigin`; a URL whose domain is not `rp_id` or a subdomain of
    /// it is refused by the WebAuthn library.
    pub fn new(rp_id: &str, rp_origin: &str) -> (r: Result<Self, AuthError>)
        ensures
            (r matches Err(AuthError::InvalidOrigin)) <==> parsed_url(rp_origin@) is None,
            parsed_url(rp_origin@) matches Some(origin) ==> {
                &&& r is Ok <==> rp_id_fits_origin(rp_id@, origin)
                &&& r matches Ok(a) ==> a.settings() == rp_settings(rp_id@, rp_id@, origin)
                &&& r matches Ok(a) ==> a.settings() == seq![rp_id@, rp_id@, origin]
            },
    {
        let origin = match parse_url(rp_origin) {
            Ok(u) => u,
            Err(_) => return Err(AuthError::InvalidOrigin),
        };
        let builder = match webauthn_builder_new(rp_id, &origin) {
            Ok(b) => b,
            Err(e) => return Err(AuthError::Webauthn(e)),
        };
        match webauthn_builder_build(builder) {
            Ok(wa) => Ok(PasskeyAuthenticator { wa: Arc::new(wa) }),
            Err(e) => Err(AuthError::Webauthn(e)),
        }
    }

    /// The relying party the daemon's settings describe: identifier, origin
    /// and display name. An origin that is not a URL is refused with
    /// `InvalidOrigin`; a URL whose domain is not the identifier or a
    /// subdomain of it is refused by the WebAuthn library. Settings that
    /// cannot describe a relying party are reported as an error, never by a
    /// panic: the daemon decides what to do with it (it stops with a message).
    pub fn for_config(config: &AppConfig) -> (r: Result<Self, AuthError>)
        ensures
            (r matches Err(AuthError::InvalidOrigin)) <==> parsed_url(config.rp_origin@) is None,
            parsed_url(config.rp_origin@) matches Some(origin) ==> {
                &&& r is Ok <==> rp_id_fits_origin(config.rp_id@, origin)
                &&& r matches Ok(a) ==> a.settings() == rp_settings(
                    config.rp_id@,
                    config.rp_name@,
                    origin,
                )
                &&& r matches Ok(a) ==> {
                    &&& a.settings().len() == 3
                    &&& a.settings()[0] == config.rp_id@
                    &&& a.settings()[1] == config.rp_name@
                    &&& a.settings()[2] == origin
                }
            },
    {
        let origin = match parse_url(config.rp_origin.as_str()) {
            Ok(u) => u,
            Err(_) => return Err(AuthError::InvalidOrigin),
        };
        let builder = match webauthn_builder_new(config.rp_id.as_str(), &origin) {
            Ok(b) => b,
            Err(e) => return Err(AuthError::Webauthn(e)),
        };
        let named = webauthn_builder_rp_name(builder, config.rp_name.as_str());
        match webauthn_builder_build(named) {
            Ok(wa) => Ok(PasskeyAuthenticator { wa: Arc::new(wa) }),
            Err(e) => Err(AuthError::Webauthn(e)),
        }
    }

    /// Starts an authentication ceremony for the given credentials: always
    /// succeeds, with the options to send to the client and the state to keep
    /// until the answer comes. The options carry the challenge the state
    /// expects, and both allow exactly the given passkeys' credentials, in
    /// order.
    pub fn start_auth(&self, allow_credentials: Vec<Passkey>) -> (r: Result<
        (RequestChallengeResponse, PasskeyAuthentication),
        WebauthnError,
    >)
        ensures
            r is Ok,
            r is Ok ==> challenge_of(r->Ok_0.0) == ceremony_challenge(r->Ok_0.1),
            r is Ok ==> allowed_credential_ids(r->Ok_0.1) == allow_credentials@.map_values(
                |p: Passkey| passkey_cred_id(p),
            ),
            r is Ok ==> options_allowed_ids(r->Ok_0.0) == allowed_credential_ids(r->Ok_0.1),
    {
        start_passkey_authentication(&self.wa, allow_credentials.as_slice())
    }

    /// Checks the client's answer to a started ceremony: accepted exactly
    /// when this relying party accepts the assertion for that ceremony; an
    /// answer to a ceremony that allowed no credential is always refused.
    pub fn verify_auth(
        &self,
        assertion: &PublicKeyCredential,
        auth_state: PasskeyAuthentication,
    ) -> (r: Result<AuthenticationResult, WebauthnError>)
        ensures
            r is Ok <==> passkey_assertion_accepted(self.relying_party(), *assertion, auth_state),
            r is Ok ==> allowed_credential_ids(auth_state).len() > 0,
    {
        finish_passkey_authentication(&self.wa, assertion, &auth_state)
    }
}

/// Started ceremonies kept under random session identifiers until the
/// client answers.
pub struct AuthSessionManager {
    sessions: HashMap<u128, PasskeyAuthentication>,
}

impl View for AuthSessionManager {
    type V = Map<u128, PasskeyAuthentication>;

    closed spec fn view(&self) -> Map<u128, PasskeyAuthentication> {
        self.sessions@
    }
}

impl AuthSessionManager {
    /// A manager without sessions.
    pub fn new() -> (r: Self)
        ensures
            r@ == Map::<u128, PasskeyAuthentication>::empty(),
    {
        AuthSessionManager { sessions: HashMap::new() }
    }

    /// Keeps `session` under `id`, replacing what was kept under it.
    pub fn store_session_as(&mut self, id: u128, session: PasskeyAuthentication)
        ensures
            final(self)@ == old(self)@.insert(id, session),
    {
        self.sessions.insert(id, session);
    }

    /// Keeps `session` under a fresh random version-4 UUID (its 128 bits),
    /// which is returned.
    pub fn store_session(&mut self, session: PasskeyAuthentication) -> (id: u128)
        ensures
            crate::logs::is_v4_bits(id),
            final(self)@ == old(self)@.insert(id, session),
    {
        let id = crate::logs::new_v4_bits();
        self.store_session_as(id, session);
        id
    }

    /// Hands out the session kept under `id` and forgets it, so that it can
    /// be used once only.
    pub fn retrieve_session(&mut self, id: u128) -> (r: Option<PasskeyAuthentication>)
        ensures
            r == (if old(self)@.contains_key(id) {
                Some(old(self)@[id])
            } else {
                None
            }),
            final(self)@ == old(self)@.remove(id),
    {
        self.sessions.remove(&id)
    }
}

/// One operation on a session store, for reasoning about sequences of them.
pub enum SessionOp {
    Store { id: u128, session: PasskeyAuthentication },
    Retrieve { id: u128 },
}

/// The sessions kept after one operation, as the operation's contract
/// states it.
pub open spec fn apply_session_op(
    m: Map<u128, PasskeyAuthentication>,
    op: SessionOp,
) -> Map<u128, PasskeyAuthentication> {
    match op {
        SessionOp::Store { id, session } => m.insert(id, session),
        SessionOp::Retrieve { id } => m.remove(id),
    }
}

/// The sessions kept after a sequence of operations, first to last.
pub open spec fn run_session_ops(
    m: Map<u128, PasskeyAuthentication>,
    ops: Seq<SessionOp>,
) -> Map<u128, PasskeyAuthentication>
    decreases ops.len(),
{
    if ops.len() == 0 {
        m
    } else {
        apply_session_op(run_session_ops(m, ops.drop_last()), ops.last())
    }
}

/// The identifier an operation stores under or retrieves.
pub open spec fn session_op_id(op: SessionOp) -> u128 {
    match op {
        SessionOp::Store { id, .. } => id,
        SessionOp::Retrieve { id } => id,
    }
}

/// Operations on other identifiers leave what is kept under `id` alone.
pub proof fn lemma_other_sessions_leave_id_alone(
    m: Map<u128, PasskeyAuthentication>,
    id: u128,
    ops: Seq<SessionOp>,
)
    requires
        forall|i: int| 0 <= i < ops.len() ==> session_op_id(#[trigger] ops[i]) != id,
    ensures
        run_session_ops(m, ops).contains_key(id) == m.contains_key(id),
        m.contains_key(id) ==> run_session_ops(m, ops)[id] == m[id],
    decreases ops.len(),
{
    if ops.len() > 0 {
        let d = ops.drop_last();
        assert forall|i: int| 0 <= i < d.len() implies session_op_id(#[trigger] d[i]) != id by {
            assert(d[i] == ops[i]);
        }
        lemma_other_sessions_leave_id_alone(m, id, d);
        assert(session_op_id(ops[ops.len() - 1]) != id);
    }
}

/// A session stored under `id` is handed out by the next retrieval of `id`,
/// whatever happened to other identifiers in between, and a retrieval after
/// that gets nothing; an identifier under which nothing was ever stored gets
/// nothing.
pub proof fn lemma_session_handed_out_once(
    m: Map<u128, PasskeyAuthentication>,
    id: u128,
    session: PasskeyAuthentication,
    between: Seq<SessionOp>,
)
    requires
        forall|i: int| 0 <= i < between.len() ==> session_op_id(#[trigger] between[i]) != id,
    ensures
        run_session_ops(m.insert(id, session), between).contains_key(id),
        run_session_ops(m.insert(id, session), between)[id] == session,
        !run_session_ops(m.insert(id, session), between).remove(id).contains_key(id),
        !m.contains_key(id) ==> !run_session_ops(m, between).contains_key(id),
{
    lemma_other_sessions_leave_id_alone(m.insert(id, session), id, between);
    lemma_other_sessions_leave_id_alone(m, id, between);
}

/// What a session store hands out for `id` after `session` was stored under
/// it is that session, and a second request for `id` gets nothing.
pub proof fn lemma_session_used_once(
    sessions: Map<u128, PasskeyAuthentication>,
    id: u128,
    session: PasskeyAuthentication,
)
    ensures
        sessions.insert(id, session).contains_key(id),
        sessions.insert(id, session)[id] == session,
        !sessions.insert(id, session).remove(id).contains_key(id),
{
}

} // verus!
