//! The backend proxy: one owned state that takes requests, manages credentials,
//! signs backend calls and hands their responses back in submission order.
//!
//! The proxy does no I/O itself. Each request yields an `Action` for the host to carry
//! out: reply now, send a signed call and report its outcome to `update`, or store an
//! encrypted bundle and then reply with it.
use vstd::prelude::*;
use vstd::string::*;
use vstd::utf8::*;

use crate::codec::{b64_decoded, b64_encoded};
use crate::credentials::{bundle_plaintext, AwsCreds, AwsCredsEncrypted, CredsView};
use crate::queue::{complete, delivered_as, Delivery, ResponseQueue};
use crate::signer::{amz_date, authorization, new_signed_request, SignedRequest, UtcTime};
use crate::vault::{argon2id_key, fits_password, KeyData, KEY_LENGTH, SALT_LENGTH};

verus! {

/// A request to the proxy.
#[derive(Debug)]
pub enum WorkerRequest {
    /// A payload to sign and send to the backend.
    BackendRequest(Vec<u8>),
    /// Asks for the current status.
    StatusRequest,
    /// A password and a stored bundle to open with it.
    SetCredsEncrypted(String, AwsCredsEncrypted),
    /// A password, then host, key id and secret key to seal with it.
    SetCredsPlaintext(String, String, String, String),
}

/// A reply from the proxy.
#[derive(Debug)]
pub enum WorkerResponse {
    /// The backend's reply, `None` where the call failed.
    BackendResponse(Option<Vec<u8>>),
    Status(WorkerStatus),
}

/// What the proxy reports of itself.
#[derive(Debug)]
pub enum WorkerStatus {
    /// No credentials are loaded.
    NotReady,
    /// Credentials were sealed into this bundle, which is being stored.
    CredsEncrypted(AwsCredsEncrypted),
    /// Credentials are loaded; backend requests are signed and sent.
    Ready,
}

impl Default for WorkerStatus {
    fn default() -> (r: Self)
        ensures
            r is NotReady,
    {
        WorkerStatus::NotReady
    }
}

/// The key, salt and credentials of a ready proxy; `None` before any are set.
pub type StateView = Option<(Seq<u8>, Seq<u8>, CredsView)>;

/// What the host must do after a request.
#[derive(Debug)]
pub enum Action {
    /// Reply to the caller now.
    Respond(WorkerResponse),
    /// Send this call; report its outcome to `update` with this slot number.
    Send(u64, SignedRequest),
    /// Store this bundle, then reply to the caller with `Status(CredsEncrypted(bundle))`.
    Persist(AwsCredsEncrypted),
}

/// The key, salt and credentials that `password` gets from `bundle`: the salt must be
/// Base64 of `SALT_LENGTH` bytes, and the key derived from it must open every field.
pub open spec fn open_bundle(password: Seq<char>, bundle: AwsCredsEncrypted) -> StateView {
    match b64_decoded(encode_utf8(bundle.salt@)) {
        Some(salt) => {
            if salt.len() == SALT_LENGTH && fits_password(encode_utf8(password).len()) {
                let key = argon2id_key(encode_utf8(password), salt, KEY_LENGTH as nat);
                match bundle_plaintext(key, bundle) {
                    Some(c) => Some((key, salt, c)),
                    None => None,
                }
            } else {
                None
            }
        },
        None => None,
    }
}

/// The state after `SetCredsEncrypted(password, bundle)` from state `s`: the opened
/// bundle, or `s` unchanged where it does not open.
pub open spec fn after_set_encrypted(s: StateView, password: Seq<char>, bundle: AwsCredsEncrypted) -> StateView {
    match open_bundle(password, bundle) {
        Some(v) => Some(v),
        None => s,
    }
}

/// `bundle` is what `SetCredsPlaintext(password, ..)` stored for the state `ready`: a
/// key derived from `password` opens it to exactly that state.
pub open spec fn stored_for(password: Seq<char>, bundle: AwsCredsEncrypted, ready: StateView) -> bool {
    ready is Some && open_bundle(password, bundle) == ready
}

/// A bundle stored for credentials brings a proxy, from any state, to the same key,
/// salt and credentials under the same password.
pub proof fn lemma_stored_bundle_reopens(
    password: Seq<char>,
    bundle: AwsCredsEncrypted,
    ready: StateView,
    any: StateView,
)
    requires
        stored_for(password, bundle, ready),
    ensures
        after_set_encrypted(any, password, bundle) == ready,
{
}

/// A password whose key does not open every field of the bundle leaves the state as it
/// was: a proxy that was not ready does not become ready.
pub proof fn lemma_wrong_password_keeps_state(
    state: StateView,
    password: Seq<char>,
    bundle: AwsCredsEncrypted,
)
    requires
        open_bundle(password, bundle) is None,
    ensures
        after_set_encrypted(state, password, bundle) == state,
        state is None ==> after_set_encrypted(state, password, bundle) is None,
{
}

enum WorkerState {
    Uninitialized,
    Ready(KeyData, AwsCreds),
}

/// The proxy: its credentials state and the queue of calls in flight.
pub struct BackendWorker {
    state: WorkerState,
    queue: ResponseQueue,
}

impl BackendWorker {
    /// Key, salt and credentials while ready.
    pub closed spec fn state(&self) -> StateView {
        match &self.state {
            WorkerState::Uninitialized => None,
            WorkerState::Ready(kd, c) => Some((kd.key(), kd.salt(), c.view())),
        }
    }

    /// The response queue.
    pub closed spec fn queue(&self) -> ResponseQueue {
        self.queue
    }

    /// The queue is well formed and a ready state holds a well-formed key.
    pub closed spec fn wf(&self) -> bool {
        &&& self.queue.wf()
        &&& match &self.state {
            WorkerState::Uninitialized => true,
            WorkerState::Ready(kd, _) => kd.wf(),
        }
    }

    /// A proxy with no credentials and nothing in flight.
    pub fn create() -> (r: Self)
        ensures
            r.wf(),
            r.queue().wf(),
            r.state() is None,
            r.queue().slots().len() == 0,
            r.queue().next() == 0,
    {
        BackendWorker { state: WorkerState::Uninitialized, queue: ResponseQueue::new() }
    }

    /// `Ready` while credentials are loaded, `NotReady` otherwise.
    pub fn get_status(&self) -> (r: WorkerResponse)
        ensures
            self.state() is Some ==> r matches WorkerResponse::Status(WorkerStatus::Ready),
            self.state() is None ==> r matches WorkerResponse::Status(WorkerStatus::NotReady),
    {
        match &self.state {
            WorkerState::Uninitialized => WorkerResponse::Status(WorkerStatus::NotReady),
            WorkerState::Ready(_, _) => WorkerResponse::Status(WorkerStatus::Ready),
        }
    }

    /// Opens `encrypted` with a key derived from `password` and its salt. On success the
    /// proxy holds the new key and credentials, and the previous key is zeroed; on
    /// failure nothing changes.
    pub fn set_password(&mut self, password: String, encrypted: AwsCredsEncrypted) -> (r: WorkerResponse)
        requires
            old(self).wf(),
        ensures
            final(self).wf(),
            final(self).queue().wf(),
            final(self).queue() == old(self).queue(),
            final(self).state() == after_set_encrypted(old(self).state(), password@, encrypted),
            open_bundle(password@, encrypted) is Some ==> r matches WorkerResponse::Status(
                WorkerStatus::Ready,
            ),
            open_bundle(password@, encrypted) is None ==> r matches WorkerResponse::Status(
                WorkerStatus::NotReady,
            ),
    {
        let mut new_kd = match KeyData::new_with_salt(encrypted.salt.as_str()) {
            Ok(kd) => kd,
            Err(_) => return WorkerResponse::Status(WorkerStatus::NotReady),
        };
        if password.as_str().as_bytes().len() > u32::MAX as usize {
            return WorkerResponse::Status(WorkerStatus::NotReady);
        }
        new_kd.fill_from_password(password.as_str());
        match encrypted.try_decrypt(&new_kd) {
            Ok(plaintext_creds) => {
                let _superseded = self.replace_state(WorkerState::Ready(new_kd, plaintext_creds));
                WorkerResponse::Status(WorkerStatus::Ready)
            },
            Err(_) => {
                new_kd.wipe();
                WorkerResponse::Status(WorkerStatus::NotReady)
            },
        }
    }

    /// Derives a key from `password` and a fresh salt, seals the credentials with it and
    /// returns the bundle to store; the proxy then holds the new key and credentials, and
    /// the previous key is zeroed. `None`, with nothing changed, where the password or a
    /// field is too long.
    pub fn set_plaintext(
        &mut self,
        password: String,
        lambda_host: String,
        key_id: String,
        access_key: String,
    ) -> (r: Option<AwsCredsEncrypted>)
        requires
            old(self).wf(),
        ensures
            final(self).wf(),
            final(self).queue().wf(),
            final(self).queue() == old(self).queue(),
            r is Some <==> (fits_password(encode_utf8(password@).len()) && (AwsCreds {
                lambda_host,
                key_id,
                access_key,
            }).fits()),
            r is Some ==> final(self).state() is Some && final(self).state()->Some_0.2 == (
                lambda_host@,
                key_id@,
                access_key@,
            ),
            r is Some ==> stored_for(password@, r->Some_0, final(self).state()),
            r is Some ==> r->Some_0.salt@ == b64_encoded(final(self).state()->Some_0.1),
            r is None ==> final(self).state() == old(self).state(),
    {
        if password.as_str().as_bytes().len() > u32::MAX as usize {
            return None;
        }
        let mut kd = KeyData::new();
        kd.fill_from_password(password.as_str());
        let creds = AwsCreds::create_and_save(lambda_host, key_id, access_key);
        match creds.try_encrypt(&kd) {
            Ok(encrypted) => {
                proof {
                    assert(b64_decoded(encode_utf8(encrypted.salt@)) == Some(kd.salt()));
                }
                let _superseded = self.replace_state(WorkerState::Ready(kd, creds));
                Some(encrypted)
            },
            Err(_) => {
                kd.wipe();
                None
            },
        }
    }

    /// Handles one request from caller `who` at time `now` and says what the host must do.
    ///
    /// A backend request while ready takes the next slot and is signed for sending; while
    /// not ready it is answered with the status at once, and nothing is sent. A status
    /// request changes nothing.
    pub fn received(&mut self, msg: WorkerRequest, who: u64, now: &UtcTime) -> (r: Action)
        requires
            old(self).wf(),
            now.wf(),
        ensures
            final(self).wf(),
            final(self).queue().wf(),
            match msg {
                WorkerRequest::BackendRequest(body) => {
                    &&& final(self).state() == old(self).state()
                    &&& old(self).state() is None ==> {
                        &&& r matches Action::Respond(WorkerResponse::Status(WorkerStatus::NotReady))
                        &&& final(self).queue() == old(self).queue()
                    }
                    &&& old(self).state() is Some && old(self).queue().next() < u64::MAX ==> {
                        &&& r matches Action::Send(slot, req) && slot == old(self).queue().next()
                            && req.method@ == "POST"@
                            && req.url@ == "https://"@ + old(self).state()->Some_0.2.0 + "/"@
                            && req.host@ == old(self).state()->Some_0.2.0
                            && req.content_type@ == "application/json"@
                            && req.amz_date@ == amz_date(now@)
                            && req.authorization@ == authorization(old(self).state()->Some_0.2, body@, now@)
                            && req.body@ == body@
                        &&& final(self).queue().next() == old(self).queue().next() + 1
                        &&& final(self).queue().slots() == old(self).queue().slots().push(
                            (old(self).queue().next() as u64, who, None),
                        )
                    }
                    &&& old(self).state() is Some && old(self).queue().next() >= u64::MAX ==> {
                        &&& r matches Action::Respond(WorkerResponse::BackendResponse(None))
                        &&& final(self).queue() == old(self).queue()
                    }
                },
                WorkerRequest::StatusRequest => {
                    &&& final(self).state() == old(self).state()
                    &&& final(self).queue() == old(self).queue()
                    &&& old(self).state() is Some ==> (r matches Action::Respond(
                        WorkerResponse::Status(WorkerStatus::Ready),
                    ))
                    &&& old(self).state() is None ==> (r matches Action::Respond(
                        WorkerResponse::Status(WorkerStatus::NotReady),
                    ))
                },
                WorkerRequest::SetCredsEncrypted(password, bundle) => {
                    &&& final(self).state() == after_set_encrypted(old(self).state(), password@, bundle)
                    &&& final(self).queue() == old(self).queue()
                    &&& open_bundle(password@, bundle) is Some ==> (r matches Action::Respond(
                        WorkerResponse::Status(WorkerStatus::Ready),
                    ))
                    &&& open_bundle(password@, bundle) is None ==> (r matches Action::Respond(
                        WorkerResponse::Status(WorkerStatus::NotReady),
                    ))
                },
                WorkerRequest::SetCredsPlaintext(password, lambda_host, key_id, access_key) => {
                    &&& final(self).queue() == old(self).queue()
                    &&& r is Persist <==> (fits_password(encode_utf8(password@).len()) && (AwsCreds {
                        lambda_host,
                        key_id,
                        access_key,
                    }).fits())
                    &&& r matches Action::Persist(bundle) ==> {
                        &&& final(self).state() is Some
                        &&& final(self).state()->Some_0.2 == (lambda_host@, key_id@, access_key@)
                        &&& stored_for(password@, bundle, final(self).state())
                    }
                    &&& !(r is Persist) ==> {
                        &&& r matches Action::Respond(WorkerResponse::Status(WorkerStatus::NotReady))
                        &&& final(self).state() == old(self).state()
                    }
                },
            },
    {
        match msg {
            WorkerRequest::BackendRequest(body) => self.backend_request(body, who, now),
            WorkerRequest::StatusRequest => Action::Respond(self.get_status()),
            WorkerRequest::SetCredsEncrypted(password, bundle) => {
                Action::Respond(self.set_password(password, bundle))
            },
            WorkerRequest::SetCredsPlaintext(password, lambda_host, key_id, access_key) => {
                match self.set_plaintext(password, lambda_host, key_id, access_key) {
                    Some(bundle) => Action::Persist(bundle),
                    None => Action::Respond(WorkerResponse::Status(WorkerStatus::NotReady)),
                }
            },
        }
    }

    fn backend_request(&mut self, body: Vec<u8>, who: u64, now: &UtcTime) -> (r: Action)
        requires
            old(self).wf(),
            now.wf(),
        ensures
            final(self).wf(),
            final(self).queue().wf(),
            final(self).state() == old(self).state(),
            old(self).state() is None ==> {
                &&& r matches Action::Respond(WorkerResponse::Status(WorkerStatus::NotReady))
                &&& final(self).queue() == old(self).queue()
            },
            old(self).state() is Some && old(self).queue().next() < u64::MAX ==> {
                &&& r matches Action::Send(slot, req) && slot == old(self).queue().next()
                    && req.method@ == "POST"@
                            && req.url@ == "https://"@ + old(self).state()->Some_0.2.0 + "/"@
                    && req.host@ == old(self).state()->Some_0.2.0
                    && req.content_type@ == "application/json"@
                    && req.amz_date@ == amz_date(now@)
                    && req.authorization@ == authorization(old(self).state()->Some_0.2, body@, now@)
                    && req.body@ == body@
                &&& final(self).queue().next() == old(self).queue().next() + 1
                &&& final(self).queue().slots() == old(self).queue().slots().push(
                    (old(self).queue().next() as u64, who, None),
                )
            },
            old(self).state() is Some && old(self).queue().next() >= u64::MAX ==> {
                &&& r matches Action::Respond(WorkerResponse::BackendResponse(None))
                &&& final(self).queue() == old(self).queue()
            },
    {
        match &self.state {
            WorkerState::Ready(_, creds) => {
                let request = new_signed_request(body.as_slice(), creds, now);
                match self.queue.submit(who) {
                    Some(slot) => Action::Send(slot, request),
                    None => Action::Respond(WorkerResponse::BackendResponse(None)),
                }
            },
            WorkerState::Uninitialized => Action::Respond(self.get_status()),
        }
    }

    /// Takes the outcome of the call in slot `slot` and returns the responses that can now
    /// be delivered, in submission order, each to its own caller.
    pub fn update(&mut self, slot: u64, response: Option<Vec<u8>>) -> (r: Vec<Delivery>)
        requires
            old(self).wf(),
        ensures
            final(self).wf(),
            final(self).queue().wf(),
            final(self).state() == old(self).state(),
            final(self).queue().next() == old(self).queue().next(),
            final(self).queue().slots() == complete(old(self).queue().slots(), slot, response).1,
            delivered_as(r@, complete(old(self).queue().slots(), slot, response).0),
    {
        self.queue.complete(slot, response)
    }

    /// Installs `next` and hands back the key it replaces, zeroed.
    fn replace_state(&mut self, next: WorkerState) -> (r: Option<KeyData>)
        ensures
            final(self).queue == old(self).queue,
            final(self).state == next,
            old(self).state() is None ==> r is None,
            old(self).state() is Some ==> r is Some && r->Some_0.key() == Seq::new(
                old(self).state()->Some_0.0.len(),
                |i: int| 0u8,
            ) && r->Some_0.salt() == Seq::new(old(self).state()->Some_0.1.len(), |i: int| 0u8),
    {
        let mut prev = next;
        core::mem::swap(&mut self.state, &mut prev);
        match prev {
            WorkerState::Uninitialized => None,
            WorkerState::Ready(mut kd, _) => {
                kd.wipe();
                Some(kd)
            },
        }
    }
}

} // verus!
