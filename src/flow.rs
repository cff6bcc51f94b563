//! The onboarding and authentication flows: the fixed messages, the signed
//! requests, and what the venue's answers mean.
use crate::crypto::{
    pedersen_on_elements, felt_hex_value, is_usable_secret, parse_felt_hex, public_key_of, sign_hash, signable_bound,
    stark_ecdsa_signature, stark_public_key, usable_secret, Signature,
};
use crate::error::FlowError;
use crate::felt::{
    encode_short_string, felt_from_u128, fits_short_string, short_string_value, EncodeError,
    Felt252,
};
use crate::typed_data::{
    message_hash, message_struct_hash_value, names_of, signable_hash_of, struct_hash_value,
    value_felt, values_felts, Domain, FieldValue, TypedMessage,
};
use crate::text::{onboarding_body, onboarding_body_text, signature_header, signature_header_text};
use vstd::prelude::*;
use vstd::string::*;
use vstd::utf8::*;

verus! {

/// Seconds for which an authentication signature stays valid.
pub const AUTH_WINDOW_SECS: u64 = 86400;

/// The chain a client signs for.
#[derive(Debug, Clone)]
pub struct ParadexConfig {
    pub starknet_chain_id: String,
}

impl ParadexConfig {
    /// The test network, chain `SN_GOERLI`.
    pub fn testnet() -> (r: Self)
        ensures
            r.starknet_chain_id@ == "SN_GOERLI"@,
    {
        Self { starknet_chain_id: String::from_str("SN_GOERLI") }
    }

    /// The production network, chain `SN_MAIN`.
    pub fn production() -> (r: Self)
        ensures
            r.starknet_chain_id@ == "SN_MAIN"@,
    {
        Self { starknet_chain_id: String::from_str("SN_MAIN") }
    }
}

/// A domain and a message to sign in it.
#[derive(Debug)]
pub struct TypedData {
    pub domain: Domain,
    pub message: TypedMessage,
}

/// The packed value of a string's UTF-8 bytes.
pub open spec fn packed(s: Seq<char>) -> nat {
    short_string_value(encode_utf8(s))
}

/// Whether a chain identifier packs into one field element.
pub open spec fn chain_fits(chain: Seq<char>) -> bool {
    fits_short_string(encode_utf8(chain))
}

/// The venue's domain values for a chain: name `Paradex`, version 1, the chain.
pub open spec fn domain_values_for(chain: Seq<char>) -> Seq<nat> {
    seq![packed("Paradex"@), 1, packed(chain)]
}

/// The struct hash of the onboarding message, `Constant { action: "Onboarding" }`.
pub open spec fn onboarding_struct_hash() -> nat {
    struct_hash_value("Constant"@, seq!["action"@], seq![packed("Onboarding"@)])
}

/// The struct hash of the authentication message for a validity window.
pub open spec fn auth_struct_hash(timestamp: nat, expiration: nat) -> nat {
    struct_hash_value(
        "Request"@,
        seq!["method"@, "path"@, "body"@, "timestamp"@, "expiration"@],
        seq![packed("POST"@), packed("/v1/auth"@), 0, timestamp, expiration],
    )
}

/// The signable hash of the onboarding message on a chain for an account.
pub open spec fn onboarding_hash(chain: Seq<char>, account: nat) -> nat {
    signable_hash_of(domain_values_for(chain), account, onboarding_struct_hash())
}

/// The signable hash of the authentication message on a chain for an
/// account and a validity window.
pub open spec fn auth_hash(chain: Seq<char>, account: nat, timestamp: nat, expiration: nat) -> nat {
    signable_hash_of(domain_values_for(chain), account, auth_struct_hash(timestamp, expiration))
}

proof fn lemma_values_felts_push(vs: Seq<FieldValue>, v: FieldValue)
    ensures
        values_felts(vs.push(v)) == match values_felts(vs) {
            Err(e) => Err(e),
            Ok(init) => match value_felt(v) {
                Err(e) => Err(e),
                Ok(x) => Ok(init.push(x)),
            },
        },
{
    assert(vs.push(v).drop_last() =~= vs);
}

proof fn lemma_packs(s: &str)
    requires
        is_ascii_chars(s@),
        s@.len() <= 31,
    ensures
        fits_short_string(encode_utf8(s@)),
{
    is_ascii_chars_encode_utf8(s@);
}

fn text_value(s: &str) -> (r: FieldValue)
    ensures
        r matches FieldValue::Text(t) && t@ == s@,
{
    FieldValue::Text(String::from_str(s))
}

/// The venue's domain on a chain.
pub fn paradex_domain(chain_id: &str) -> (r: Result<Domain, FlowError>)
    ensures
        r is Ok <==> chain_fits(chain_id@),
        r matches Ok(d) ==> d.wf() && d.values() == domain_values_for(chain_id@),
        r matches Err(e) ==> e == FlowError::EncodingOverflow,
{
    proof {
        reveal_strlit("Paradex");
        lemma_packs("Paradex");
    }
    let chain = match encode_short_string(chain_id) {
        Ok(f) => f,
        Err(_) => return Err(FlowError::EncodingOverflow),
    };
    let name = match encode_short_string("Paradex") {
        Ok(f) => f,
        Err(_) => return Err(FlowError::EncodingOverflow),
    };
    let d = Domain { name, version: felt_from_u128(1), chain_id: chain };
    assert(d.values() =~= domain_values_for(chain_id@));
    Ok(d)
}

/// Whether a value is the text `s`.
pub open spec fn is_text(v: FieldValue, s: Seq<char>) -> bool {
    v matches FieldValue::Text(t) && t@ == s
}

/// The onboarding message: type `Constant`, the one field `action`, with
/// the value `Onboarding`.
pub open spec fn is_onboarding_message(m: TypedMessage) -> bool {
    &&& m.primary_type@ == "Constant"@
    &&& names_of(m.fields@) == seq!["action"@]
    &&& m.values@.len() == 1
    &&& is_text(m.values@[0], "Onboarding"@)
}

/// The authentication message: type `Request`, the fields `method`, `path`,
/// `body`, `timestamp` and `expiration` in that order, with the values
/// `POST`, `/v1/auth`, the empty text, `timestamp` and `expiration`.
pub open spec fn is_auth_message(m: TypedMessage, timestamp: u64, expiration: u64) -> bool {
    &&& m.primary_type@ == "Request"@
    &&& names_of(m.fields@) == seq!["method"@, "path"@, "body"@, "timestamp"@, "expiration"@]
    &&& m.values@.len() == 5
    &&& is_text(m.values@[0], "POST"@)
    &&& is_text(m.values@[1], "/v1/auth"@)
    &&& is_text(m.values@[2], ""@)
    &&& m.values@[3] == FieldValue::Integer(timestamp as i128)
    &&& m.values@[4] == FieldValue::Integer(expiration as i128)
}

/// The onboarding message `Constant { action: "Onboarding" }` in the
/// venue's domain on a chain.
pub fn build_onboarding_typed_data(chain_id: &str) -> (r: Result<TypedData, FlowError>)
    ensures
        r is Ok <==> chain_fits(chain_id@),
        r matches Ok(td) ==> td.domain.wf() && td.domain.values() == domain_values_for(chain_id@)
            && is_onboarding_message(td.message)
            && message_struct_hash_value(td.message) == Ok::<nat, EncodeError>(onboarding_struct_hash()),
        r matches Err(e) ==> e == FlowError::EncodingOverflow,
{
    let domain = paradex_domain(chain_id)?;
    let mut fields: Vec<String> = Vec::new();
    fields.push(String::from_str("action"));
    let mut values: Vec<FieldValue> = Vec::new();
    values.push(text_value("Onboarding"));
    let message = TypedMessage { primary_type: String::from_str("Constant"), fields, values };
    proof {
        reveal_strlit("Onboarding");
        lemma_packs("Onboarding");
        lemma_values_felts_push(Seq::empty(), message.values@[0]);
        assert(message.values@ =~= Seq::<FieldValue>::empty().push(message.values@[0]));
        assert(Seq::<nat>::empty().push(packed("Onboarding"@)) =~= seq![packed("Onboarding"@)]);
        assert(names_of(message.fields@) =~= seq!["action"@]);
    }
    Ok(TypedData { domain, message })
}

/// The authentication message `Request { method: "POST", path: "/v1/auth",
/// body: "", timestamp, expiration }` in the venue's domain on a chain.
pub fn build_auth_typed_data(chain_id: &str, timestamp: u64, expiry: u64) -> (r: Result<TypedData, FlowError>)
    ensures
        r is Ok <==> chain_fits(chain_id@),
        r matches Ok(td) ==> td.domain.wf() && td.domain.values() == domain_values_for(chain_id@)
            && is_auth_message(td.message, timestamp, expiry)
            && message_struct_hash_value(td.message) == Ok::<nat, EncodeError>(
            auth_struct_hash(timestamp as nat, expiry as nat),
        ),
        r matches Err(e) ==> e == FlowError::EncodingOverflow,
{
    let domain = paradex_domain(chain_id)?;
    let mut fields: Vec<String> = Vec::new();
    fields.push(String::from_str("method"));
    fields.push(String::from_str("path"));
    fields.push(String::from_str("body"));
    fields.push(String::from_str("timestamp"));
    fields.push(String::from_str("expiration"));
    let mut values: Vec<FieldValue> = Vec::new();
    values.push(text_value("POST"));
    values.push(text_value("/v1/auth"));
    values.push(text_value(""));
    values.push(FieldValue::Integer(timestamp as i128));
    values.push(FieldValue::Integer(expiry as i128));
    let message = TypedMessage { primary_type: String::from_str("Request"), fields, values };
    proof {
        reveal_strlit("POST");
        reveal_strlit("/v1/auth");
        reveal_strlit("");
        lemma_packs("POST");
        lemma_packs("/v1/auth");
        lemma_packs("");
        let vs = message.values@;
        let e = Seq::<FieldValue>::empty();
        lemma_values_felts_push(e, vs[0]);
        lemma_values_felts_push(e.push(vs[0]), vs[1]);
        lemma_values_felts_push(e.push(vs[0]).push(vs[1]), vs[2]);
        lemma_values_felts_push(e.push(vs[0]).push(vs[1]).push(vs[2]), vs[3]);
        lemma_values_felts_push(e.push(vs[0]).push(vs[1]).push(vs[2]).push(vs[3]), vs[4]);
        assert(vs =~= e.push(vs[0]).push(vs[1]).push(vs[2]).push(vs[3]).push(vs[4]));
        is_ascii_chars_encode_utf8(""@);
        assert(encode_utf8(""@) =~= Seq::<u8>::empty());
        assert(packed(""@) == 0);
        assert(Seq::<nat>::empty().push(packed("POST"@)).push(packed("/v1/auth"@)).push(0).push(
            timestamp as nat,
        ).push(expiry as nat) =~= seq![
            packed("POST"@),
            packed("/v1/auth"@),
            0,
            timestamp as nat,
            expiry as nat,
        ]);
        assert(names_of(message.fields@) =~= seq![
            "method"@,
            "path"@,
            "body"@,
            "timestamp"@,
            "expiration"@,
        ]);
    }
    Ok(TypedData { domain, message })
}

/// The elements hashed into the authentication struct hash.
pub open spec fn auth_struct_elements(timestamp: nat, expiration: nat) -> Seq<nat> {
    seq![
        crate::typed_data::type_hash_value(
            "Request"@,
            seq!["method"@, "path"@, "body"@, "timestamp"@, "expiration"@],
        ),
    ] + seq![packed("POST"@), packed("/v1/auth"@), 0, timestamp, expiration]
}

/// Changing the timestamp or the expiration of the authentication message
/// changes the elements that its struct hash is taken over (that the hash
/// itself then changes rests on the hash having no collision there).
pub proof fn lemma_auth_window_changes_struct_elements(t1: nat, e1: nat, t2: nat, e2: nat)
    requires
        t1 != t2 || e1 != e2,
    ensures
        auth_struct_elements(t1, e1) != auth_struct_elements(t2, e2),
        auth_struct_hash(t1, e1) == pedersen_on_elements(auth_struct_elements(t1, e1)),
{
    let a = auth_struct_elements(t1, e1);
    let b = auth_struct_elements(t2, e2);
    if t1 != t2 {
        assert(a[4] != b[4]);
    } else {
        assert(a[5] != b[5]);
    }
}

/// The secret scalar that a private-key text denotes, if it is usable.
pub open spec fn parsed_secret(text: Seq<char>) -> Option<nat> {
    match felt_hex_value(text) {
        Some(k) => if usable_secret(k) {
            Some(k)
        } else {
            None
        },
        None => None,
    }
}

/// Why the onboarding flow cannot sign, if it cannot.
pub open spec fn onboarding_error(private_key: Seq<char>, account: Seq<char>, chain: Seq<char>) -> Option<FlowError> {
    if parsed_secret(private_key) is None || felt_hex_value(account) is None {
        Some(FlowError::KeyParse)
    } else if !chain_fits(chain) {
        Some(FlowError::EncodingOverflow)
    } else if onboarding_hash(chain, felt_hex_value(account)->Some_0) >= signable_bound() {
        Some(FlowError::Signing)
    } else {
        None
    }
}

/// The expiration of an authentication signature made at `now`, if it fits
/// in 64 bits.
pub open spec fn auth_expiration(now: u64) -> Option<u64> {
    if now as nat + AUTH_WINDOW_SECS as nat <= u64::MAX as nat {
        Some((now + AUTH_WINDOW_SECS) as u64)
    } else {
        None
    }
}

/// Why the authentication flow cannot sign at `now`, if it cannot.
pub open spec fn auth_error(private_key: Seq<char>, account: Seq<char>, chain: Seq<char>, now: u64) -> Option<FlowError> {
    if parsed_secret(private_key) is None || felt_hex_value(account) is None {
        Some(FlowError::KeyParse)
    } else if auth_expiration(now) is None {
        Some(FlowError::InvalidFieldValue)
    } else if !chain_fits(chain) {
        Some(FlowError::EncodingOverflow)
    } else if auth_hash(
        chain,
        felt_hex_value(account)->Some_0,
        now as nat,
        auth_expiration(now)->Some_0 as nat,
    ) >= signable_bound() {
        Some(FlowError::Signing)
    } else {
        None
    }
}

/// A signed onboarding request, ready to be sent.
#[derive(Debug)]
pub struct OnboardingRequest {
    pub ethereum_account: String,
    pub starknet_account: String,
    pub public_key: Felt252,
    pub message_hash: Felt252,
    pub signature: Signature,
}

/// A signed authentication request, ready to be sent.
#[derive(Debug)]
pub struct AuthRequest {
    pub starknet_account: String,
    pub timestamp: u64,
    pub expiration: u64,
    pub message_hash: Felt252,
    pub signature: Signature,
}

impl OnboardingRequest {
    pub open spec fn wf(&self) -> bool {
        self.public_key.wf() && self.message_hash.wf() && self.signature.wf()
    }

    /// The `PARADEX-STARKNET-SIGNATURE` header: `["<r>","<s>"]` in decimal.
    pub fn signature_header(&self) -> (r: String)
        requires
            self.wf(),
        ensures
            r@ == signature_header_text(self.signature.r@, self.signature.s@),
    {
        signature_header(&self.signature)
    }

    /// The request body `{"public_key":"0x<hex>"}`.
    pub fn body(&self) -> (r: String)
        requires
            self.wf(),
        ensures
            r@ == onboarding_body_text(self.public_key@),
    {
        onboarding_body(&self.public_key)
    }
}

impl AuthRequest {
    pub open spec fn wf(&self) -> bool {
        self.message_hash.wf() && self.signature.wf()
    }

    /// The `PARADEX-STARKNET-SIGNATURE` header: `["<r>","<s>"]` in decimal.
    pub fn signature_header(&self) -> (r: String)
        requires
            self.wf(),
        ensures
            r@ == signature_header_text(self.signature.r@, self.signature.s@),
    {
        signature_header(&self.signature)
    }
}

/// A bearer token and the window it was requested for.
#[derive(Debug)]
pub struct AuthToken {
    pub jwt: String,
    pub issued_at: u64,
    pub expires_at: u64,
}

fn parse_key(text: &str) -> (r: Result<Felt252, FlowError>)
    ensures
        r is Ok <==> felt_hex_value(text@) is Some,
        r matches Ok(f) ==> f.wf() && felt_hex_value(text@) == Some(f@),
        r matches Err(e) ==> e == FlowError::KeyParse,
{
    match parse_felt_hex(text) {
        Ok(f) => Ok(f),
        Err(_) => Err(FlowError::KeyParse),
    }
}

fn parse_secret(text: &str) -> (r: Result<Felt252, FlowError>)
    ensures
        r is Ok <==> parsed_secret(text@) is Some,
        r matches Ok(f) ==> f.wf() && parsed_secret(text@) == Some(f@) && f@ != 0
            && f.be_bytes() != crate::crypto::curve_order_bytes(),
        r matches Err(e) ==> e == FlowError::KeyParse,
{
    let key = parse_key(text)?;
    if is_usable_secret(&key) {
        Ok(key)
    } else {
        Err(FlowError::KeyParse)
    }
}

/// Signs the onboarding message for an account and derives the public key
/// to register with the venue.
pub fn prepare_onboarding(
    account_address: &str,
    private_key: &str,
    ethereum_account: &str,
    config: &ParadexConfig,
) -> (r: Result<OnboardingRequest, FlowError>)
    ensures
        r is Err <==> onboarding_error(private_key@, account_address@, config.starknet_chain_id@) is Some,
        r matches Err(e) ==> onboarding_error(private_key@, account_address@, config.starknet_chain_id@)
            == Some(e),
        r matches Ok(req) ==> {
            let k = parsed_secret(private_key@)->Some_0;
            let h = onboarding_hash(config.starknet_chain_id@, felt_hex_value(account_address@)->Some_0);
            &&& req.message_hash@ == h
            &&& req.public_key@ == stark_public_key(k)
            &&& (req.signature.r@, req.signature.s@) == stark_ecdsa_signature(k, h)
            &&& req.ethereum_account@ == ethereum_account@
            &&& req.starknet_account@ == account_address@
            &&& req.wf()
        },
{
    let key = parse_secret(private_key)?;
    let account = parse_key(account_address)?;
    let td = build_onboarding_typed_data(config.starknet_chain_id.as_str())?;
    let hash = message_hash(&td.domain, &td.message, &account)?;
    let signature = match sign_hash(&key, &hash) {
        Ok(sig) => sig,
        Err(_) => return Err(FlowError::Signing),
    };
    let public_key = public_key_of(&key);
    Ok(OnboardingRequest {
        ethereum_account: String::from_str(ethereum_account),
        starknet_account: String::from_str(account_address),
        public_key,
        message_hash: hash,
        signature,
    })
}

/// Signs the authentication message for an account, valid from `now` for
/// one day.
pub fn prepare_auth(account_address: &str, private_key: &str, config: &ParadexConfig, now: u64) -> (r: Result<AuthRequest, FlowError>)
    ensures
        r is Err <==> auth_error(private_key@, account_address@, config.starknet_chain_id@, now) is Some,
        r matches Err(e) ==> auth_error(private_key@, account_address@, config.starknet_chain_id@, now)
            == Some(e),
        r matches Ok(req) ==> {
            let k = parsed_secret(private_key@)->Some_0;
            let h = auth_hash(
                config.starknet_chain_id@,
                felt_hex_value(account_address@)->Some_0,
                now as nat,
                req.expiration as nat,
            );
            &&& req.timestamp == now
            &&& Some(req.expiration) == auth_expiration(now)
            &&& req.message_hash@ == h
            &&& (req.signature.r@, req.signature.s@) == stark_ecdsa_signature(k, h)
            &&& req.starknet_account@ == account_address@
            &&& req.wf()
        },
{
    let key = parse_secret(private_key)?;
    let account = parse_key(account_address)?;
    if now > u64::MAX - AUTH_WINDOW_SECS {
        return Err(FlowError::InvalidFieldValue);
    }
    let expiration = now + AUTH_WINDOW_SECS;
    let td = build_auth_typed_data(config.starknet_chain_id.as_str(), now, expiration)?;
    let hash = message_hash(&td.domain, &td.message, &account)?;
    let signature = match sign_hash(&key, &hash) {
        Ok(sig) => sig,
        Err(_) => return Err(FlowError::Signing),
    };
    Ok(AuthRequest {
        starknet_account: String::from_str(account_address),
        timestamp: now,
        expiration,
        message_hash: hash,
        signature,
    })
}

/// Whether an HTTP status is a success (2xx).
pub open spec fn is_success(status: u16) -> bool {
    200 <= status < 300
}

/// What the venue's answer to an onboarding request means: success on 2xx,
/// else a rejection that carries the status and the body.
pub fn onboarding_outcome(status: u16, body: String) -> (r: Result<(), FlowError>)
    ensures
        r is Ok <==> is_success(status),
        r matches Err(e) ==> e matches FlowError::Rejected(st, b) && st == status && b@ == body@,
{
    if 200 <= status && status < 300 {
        Ok(())
    } else {
        Err(FlowError::Rejected(status, body))
    }
}

/// What the venue's answer to an authentication request means. On 2xx the
/// token read from the body's `jwt_token` makes the result; a 2xx body
/// without one is a transport failure; any other status is a rejection
/// that carries the status and the body.
pub fn auth_outcome(req: &AuthRequest, status: u16, body: String, jwt_token: Option<String>) -> (r: Result<AuthToken, FlowError>)
    ensures
        r is Ok <==> is_success(status) && jwt_token is Some,
        r matches Ok(t) ==> t.jwt@ == jwt_token->Some_0@ && t.issued_at == req.timestamp
            && t.expires_at == req.expiration,
        r matches Err(e) ==> if is_success(status) {
            e matches FlowError::Transport(b) && b@ == body@
        } else {
            e matches FlowError::Rejected(st, b) && st == status && b@ == body@
        },
{
    if 200 <= status && status < 300 {
        match jwt_token {
            Some(jwt) => Ok(AuthToken { jwt, issued_at: req.timestamp, expires_at: req.expiration }),
            None => Err(FlowError::Transport(body)),
        }
    } else {
        Err(FlowError::Rejected(status, body))
    }
}

} // verus!
