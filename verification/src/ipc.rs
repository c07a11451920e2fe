//! The daemon's side of the request/response protocol: the vault state it
//! guards and how each request is answered.
use vstd::prelude::*;
use webauthn_rs::prelude::{
    AuthenticationResult, Passkey, PasskeyAuthentication, PublicKeyCredential,
    RequestChallengeResponse, WebauthnError,
};
use crate::client::challenge_of;
use crate::session::{
    PasskeyAuthenticator, allowed_credential_ids, ceremony_challenge, clone_passkey,
    options_allowed_ids, passkey_assertion_accepted, passkey_cred_id,
};
use crate::vault::{
    MultiSlotVault, SlotMetadata, SlotView, VaultView, metadata_of, popped_slot, remaining_after_pop,
    shows,
};

verus! {

/// A request sent to the daemon.
pub enum IpcRequest {
    GetStatus,
    List,
    RequestChallenge { slot_id: Option<u32> },
    VerifyAssertion { assertion: Box<PublicKeyCredential> },
}

/// The daemon's answer to a request.
pub enum IpcResponse {
    Status { has_secret: bool, count: usize, max_slots: usize },
    List { slots: Vec<SlotMetadata> },
    Challenge { options: Box<RequestChallengeResponse> },
    Success { secret: String },
    Error { message: String },
}

/// The number of slots of the daemon's vault.
pub const VAULT_SLOTS: usize = 5;

/// The state the daemon guards: the vault, the passkeys registered to
/// unlock it, the slot a pending retrieval is for, and the state of the
/// authentication ceremony in progress, if any.
pub struct SecureVault {
    pub multi_vault: MultiSlotVault,
    pub credentials: Vec<Passkey>,
    pub target_slot_id: Option<u32>,
    pub current_auth: Option<PasskeyAuthentication>,
}

/// Whether `text` begins with `prefix`.
pub open spec fn starts_with(text: Seq<char>, prefix: Seq<char>) -> bool {
    text.len() >= prefix.len() && text.subrange(0, prefix.len() as int) == prefix
}

/// Whether a response is an error whose message reads `text`.
pub open spec fn is_error_saying(r: IpcResponse, text: Seq<char>) -> bool {
    r matches IpcResponse::Error { message } && message@ == text
}

/// The slot a retrieval hands out: the slot with the requested identifier,
/// or the newest slot when none was requested.
pub open spec fn revealed_slot(v: VaultView, target: Option<u32>) -> Option<SlotView> {
    match target {
        Some(id) => popped_slot(v.slots, id),
        None => if v.slots.len() == 0 {
            None
        } else {
            Some(v.slots.last())
        },
    }
}

/// The slots that stay after a retrieval.
pub open spec fn slots_after_reveal(v: VaultView, target: Option<u32>) -> Seq<SlotView> {
    match target {
        Some(id) => remaining_after_pop(v.slots, id),
        None => if v.slots.len() == 0 {
            v.slots
        } else {
            v.slots.drop_last()
        },
    }
}

/// The answer of a retrieval that was allowed: the revealed slot's secret,
/// or "Decryption failed" when there is no such slot.
pub open spec fn reveal_answer(r: IpcResponse, v: VaultView, target: Option<u32>) -> bool {
    match revealed_slot(v, target) {
        Some(slot) => r matches IpcResponse::Success { secret } && secret@ == slot.secret,
        None => is_error_saying(r, "Decryption failed"@),
    }
}

/// `a` followed by `b`.
pub fn concat_text(a: &str, b: &str) -> (r: String)
    ensures
        r@ == a@ + b@,
{
    let mut r = a.to_owned();
    r.append(b);
    r
}

/// The text of a WebAuthn error, prefixed as the daemon reports it.
fn webauthn_error_message(e: &WebauthnError) -> (m: String)
    ensures
        starts_with(m@, "WebAuthn Err: "@),
{
    let text = crate::session::webauthn_error_text(e);
    let m = concat_text("WebAuthn Err: ", text.as_str());
    proof {
        assert(m@.subrange(0, "WebAuthn Err: "@.len() as int) =~= "WebAuthn Err: "@);
    }
    m
}

/// A copy of a list of passkeys.
fn clone_passkeys(keys: &Vec<Passkey>) -> (r: Vec<Passkey>)
    ensures
        r@ == keys@,
{
    let mut out: Vec<Passkey> = Vec::new();
    let n = keys.len();
    for i in 0..n
        invariant
            n == keys@.len(),
            out@ == keys@.take(i as int),
    {
        out.push(clone_passkey(&keys[i]));
        proof {
            assert(out@ =~= keys@.take(i + 1));
        }
    }
    proof {
        assert(keys@.take(n as int) =~= keys@);
    }
    out
}

impl SecureVault {
    /// The daemon's initial state: an empty vault of `VAULT_SLOTS` slots, no
    /// registered passkey and no retrieval in progress.
    pub fn new() -> (r: Self)
        ensures
            r.multi_vault@.slots == Seq::<SlotView>::empty(),
            r.multi_vault@.max_slots == VAULT_SLOTS,
            r.multi_vault@.next_id == 1,
            r.credentials@ == Seq::<Passkey>::empty(),
            r.target_slot_id == None::<u32>,
            r.current_auth == None::<PasskeyAuthentication>,
    {
        SecureVault {
            multi_vault: MultiSlotVault::new(VAULT_SLOTS),
            credentials: Vec::new(),
            target_slot_id: None,
            current_auth: None,
        }
    }

    /// Registers a passkey that may answer retrieval ceremonies.
    pub fn register_credential(&mut self, passkey: Passkey)
        ensures
            final(self).credentials@ == old(self).credentials@.push(passkey),
            final(self).multi_vault@ == old(self).multi_vault@,
            final(self).target_slot_id == old(self).target_slot_id,
            final(self).current_auth == old(self).current_auth,
    {
        self.credentials.push(passkey);
    }

    /// Whether the vault holds at least one secret.
    pub fn has_secret(&self) -> (r: bool)
        ensures
            r == (self.multi_vault@.slots.len() > 0),
    {
        !self.multi_vault.is_empty()
    }

    /// Answers a request for the vault's status; nothing changes.
    pub fn status(&self) -> (r: IpcResponse)
        ensures
            r == (IpcResponse::Status {
                has_secret: self.multi_vault@.slots.len() > 0,
                count: self.multi_vault@.slots.len() as usize,
                max_slots: self.multi_vault@.max_slots as usize,
            }),
    {
        IpcResponse::Status {
            has_secret: self.has_secret(),
            count: self.multi_vault.len(),
            max_slots: self.multi_vault.max_slots(),
        }
    }

    /// Records the outcome of starting a ceremony for a retrieval of
    /// `slot_id` (the newest slot when `None`): a started ceremony is kept
    /// and its challenge sent back, a failure is reported and changes
    /// nothing.
    pub fn begin_challenge(
        &mut self,
        slot_id: Option<u32>,
        started: Result<(RequestChallengeResponse, PasskeyAuthentication), WebauthnError>,
    ) -> (r: IpcResponse)
        ensures
            final(self).multi_vault@ == old(self).multi_vault@,
            final(self).credentials@ == old(self).credentials@,
            match started {
                Ok((options, state)) => {
                    &&& r == IpcResponse::Challenge { options: Box::new(options) }
                    &&& final(self).current_auth == Some(state)
                    &&& final(self).target_slot_id == slot_id
                },
                Err(_) => {
                    &&& r matches IpcResponse::Error { message } && starts_with(
                        message@,
                        "WebAuthn Err: "@,
                    )
                    &&& final(self).current_auth == old(self).current_auth
                    &&& final(self).target_slot_id == old(self).target_slot_id
                },
            },
    {
        match started {
            Ok((options, state)) => {
                self.current_auth = Some(state);
                self.target_slot_id = slot_id;
                IpcResponse::Challenge { options: Box::new(options) }
            },
            Err(e) => IpcResponse::Error { message: webauthn_error_message(&e) },
        }
    }

    /// Acts on the verdict of a retrieval's ceremony: only an accepted
    /// answer releases a secret. Either way the retrieval is over (the
    /// ceremony was taken out before). When accepted, the requested slot (the
    /// newest one when none was requested) leaves the vault and its secret is
    /// returned; when refused, the vault is left as it is.
    pub fn release_after(
        &mut self,
        verdict: Result<AuthenticationResult, WebauthnError>,
    ) -> (r: IpcResponse)
        ensures
            r is Success ==> verdict is Ok,
            final(self).target_slot_id == None::<u32>,
            final(self).current_auth == old(self).current_auth,
            final(self).credentials@ == old(self).credentials@,
            final(self).multi_vault@.max_slots == old(self).multi_vault@.max_slots,
            final(self).multi_vault@.next_id == old(self).multi_vault@.next_id,
            verdict is Err ==> {
                &&& is_error_saying(r, "Authentication failed"@)
                &&& final(self).multi_vault@ == old(self).multi_vault@
            },
            verdict is Ok ==> {
                &&& final(self).multi_vault@.slots == slots_after_reveal(
                    old(self).multi_vault@,
                    old(self).target_slot_id,
                )
                &&& reveal_answer(r, old(self).multi_vault@, old(self).target_slot_id)
            },
    {
        let target = self.target_slot_id.take();
        if verdict.is_err() {
            return IpcResponse::Error { message: "Authentication failed".to_owned() };
        }
        let slot = match target {
            Some(id) => self.multi_vault.pop_by_id(id),
            None => self.multi_vault.pop_latest(),
        };
        match slot {
            Some(s) => IpcResponse::Success { secret: s.secret },
            None => IpcResponse::Error { message: "Decryption failed".to_owned() },
        }
    }

    /// Answers one request.
    ///
    /// - `GetStatus`: whether the vault holds a secret, how many, and the
    ///   vault's capacity.
    /// - `List`: the metadata of every slot, oldest first.
    /// - `RequestChallenge`: refused while the vault is empty; otherwise a
    ///   ceremony allowing exactly the registered passkeys is started and
    ///   kept, and its own challenge sent back.
    /// - `VerifyAssertion`: refused without a ceremony in progress; otherwise
    ///   the ceremony is used up, the answer is checked against it, and only
    ///   an accepted answer releases a secret (see `release_after`).
    pub fn handle_request(&mut self, authenticator: &PasskeyAuthenticator, request: IpcRequest) -> (r:
        IpcResponse)
        ensures
            final(self).credentials@ == old(self).credentials@,
            match request {
                IpcRequest::GetStatus => {
                    &&& r == (IpcResponse::Status {
                        has_secret: old(self).multi_vault@.slots.len() > 0,
                        count: old(self).multi_vault@.slots.len() as usize,
                        max_slots: old(self).multi_vault@.max_slots as usize,
                    })
                    &&& *final(self) == *old(self)
                },
                IpcRequest::List => {
                    &&& r matches IpcResponse::List { slots } && slots@.len()
                        == old(self).multi_vault@.slots.len() && forall|i: int|
                        0 <= i < slots@.len() ==> slots@[i] == metadata_of(
                            #[trigger] old(self).multi_vault@.slots[i],
                        )
                    &&& *final(self) == *old(self)
                },
                IpcRequest::RequestChallenge { slot_id } => {
                    &&& final(self).multi_vault@ == old(self).multi_vault@
                    &&& old(self).multi_vault@.slots.len() == 0 ==> {
                        &&& is_error_saying(r, "No secret isolated"@)
                        &&& *final(self) == *old(self)
                    }
                    &&& old(self).multi_vault@.slots.len() > 0 ==> {
                        &&& r matches IpcResponse::Challenge { options }
                            && final(self).current_auth matches Some(state)
                            && challenge_of(*options) == ceremony_challenge(state)
                            && options_allowed_ids(*options) == allowed_credential_ids(state)
                            && allowed_credential_ids(state) == old(self).credentials@.map_values(
                            |p: Passkey| passkey_cred_id(p),
                        )
                        &&& final(self).target_slot_id == slot_id
                    }
                },
                IpcRequest::VerifyAssertion { assertion } => {
                    &&& final(self).current_auth == None::<PasskeyAuthentication>
                    &&& old(self).current_auth is None ==> {
                        &&& is_error_saying(r, "No active auth session"@)
                        &&& final(self).multi_vault@ == old(self).multi_vault@
                        &&& final(self).target_slot_id == old(self).target_slot_id
                    }
                    &&& old(self).current_auth matches Some(state) ==> {
                        &&& final(self).target_slot_id == None::<u32>
                        &&& r is Success ==> allowed_credential_ids(state).len() > 0
                        &&& if passkey_assertion_accepted(
                            authenticator.relying_party(),
                            *assertion,
                            state,
                        ) {
                            &&& final(self).multi_vault@.slots == slots_after_reveal(
                                old(self).multi_vault@,
                                old(self).target_slot_id,
                            )
                            &&& reveal_answer(
                                r,
                                old(self).multi_vault@,
                                old(self).target_slot_id,
                            )
                        } else {
                            &&& is_error_saying(r, "Authentication failed"@)
                            &&& final(self).multi_vault@ == old(self).multi_vault@
                        }
                    }
                },
            },
    {
        match request {
            IpcRequest::GetStatus => self.status(),
            IpcRequest::List => IpcResponse::List { slots: self.multi_vault.list_metadata() },
            IpcRequest::RequestChallenge { slot_id } => {
                if !self.has_secret() {
                    return IpcResponse::Error { message: "No secret isolated".to_owned() };
                }
                let allowed = clone_passkeys(&self.credentials);
                let started = authenticator.start_auth(allowed);
                self.begin_challenge(slot_id, started)
            },
            IpcRequest::VerifyAssertion { assertion } => {
                let pending = self.current_auth.take();
                match pending {
                    None => IpcResponse::Error { message: "No active auth session".to_owned() },
                    Some(state) => {
                        let verdict = authenticator.verify_auth(&assertion, state);
                        self.release_after(verdict)
                    },
                }
            },
        }
    }
}

/// A retrieval takes exactly one slot out of the vault when it reveals a
/// secret, and none when it reveals nothing.
pub proof fn lemma_reveal_takes_one_slot(v: VaultView, target: Option<u32>)
    ensures
        revealed_slot(v, target) is Some ==> slots_after_reveal(v, target).len() == v.slots.len()
            - 1,
        revealed_slot(v, target) is None ==> slots_after_reveal(v, target) == v.slots,
{
    match target {
        Some(id) => {
            if crate::vault::has_id(v.slots, id) {
                crate::vault::lemma_has_id_first(v.slots, id);
            }
        },
        None => {},
    }
}

} // verus!
