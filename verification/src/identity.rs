//! Identities and signatures.
//!
//! Provenance is a signature check and never a sentence that a model weighs. A DID of the
//! form `did:key:z…` holds its own Ed25519 key, so a signature is checked here, from the
//! DID and the bytes alone.

use vstd::prelude::*;
use vstd::utf8::{decode_utf8, valid_utf8};

use crate::config::{hex, to_hex, IdentityRole};
use crate::error::DackError;
use crate::text::{
    after_prefix, fit, fitting, has_prefix, nat_text, occurs_at, owned, strip_prefix, trim,
    trimmed, u64_text,
};

verus! {

/// A decentralized identifier.
#[derive(Debug, PartialEq, Eq, Hash)]
pub struct Did(pub String);

impl View for Did {
    type V = Seq<char>;

    open spec fn view(&self) -> Seq<char> {
        self.0@
    }
}

impl Clone for Did {
    fn clone(&self) -> (r: Did)
        ensures
            r == *self,
    {
        Did(self.0.clone())
    }
}

/// A signature as it is stored: the bytes of its base64 text.
#[derive(Debug)]
pub struct Signature(pub Vec<u8>);

// ── What is trusted of bs58, base64 and ed25519-dalek ───────────────────────────────────

#[verifier::external_type_specification]
#[verifier::external_body]
pub struct ExVerifyingKey(ed25519_dalek::VerifyingKey);

/// The bytes that a base58 text in the Bitcoin alphabet stands for, or what is wrong with it.
pub uninterp spec fn base58_bytes(text: Seq<char>) -> Result<Seq<u8>, Seq<char>>;

/// `bs58::decode(..).into_vec()`: the bytes, or the text of the error where the text is not
/// base58.
#[verifier::external_body]
fn decode_base58(text: &str) -> (r: Result<Vec<u8>, String>)
    ensures
        match r {
            Ok(b) => base58_bytes(text@) == Ok::<Seq<u8>, Seq<char>>(b@),
            Err(e) => base58_bytes(text@) == Err::<Seq<u8>, Seq<char>>(e@),
        },
{
    match bs58::decode(text).into_vec() {
        Ok(b) => Ok(b),
        Err(e) => Err(e.to_string()),
    }
}

/// The bytes that a base64 text stands for, in the URL-safe or the standard alphabet, with
/// padding or without.
pub uninterp spec fn base64_bytes(url_safe: bool, padded: bool, text: Seq<char>) -> Option<
    Seq<u8>,
>;

/// `base64::Engine::decode` of the four general-purpose engines: the bytes, or nothing where
/// the text is not base64 in that alphabet and padding.
#[verifier::external_body]
fn decode_base64(url_safe: bool, padded: bool, text: &str) -> (r: Option<Vec<u8>>)
    ensures
        r.deep_view() == base64_bytes(url_safe, padded, text@),
{
    let engine = match (url_safe, padded) {
        (true, false) => &base64::engine::general_purpose::URL_SAFE_NO_PAD,
        (true, true) => &base64::engine::general_purpose::URL_SAFE,
        (false, false) => &base64::engine::general_purpose::STANDARD_NO_PAD,
        (false, true) => &base64::engine::general_purpose::STANDARD,
    };
    base64::Engine::decode(engine, text).ok()
}

/// The Ed25519 key that 32 bytes encode, or what is wrong with them.
pub uninterp spec fn ed25519_key(bytes: Seq<u8>) -> Result<
    ed25519_dalek::VerifyingKey,
    Seq<char>,
>;

/// `ed25519_dalek::VerifyingKey::from_bytes`: the key, or the text of the error where the
/// bytes are no point of the curve.
#[verifier::external_body]
fn read_key(bytes: &[u8]) -> (r: Result<ed25519_dalek::VerifyingKey, String>)
    requires
        bytes@.len() == 32,
    ensures
        match r {
            Ok(k) => ed25519_key(bytes@) == Ok::<ed25519_dalek::VerifyingKey, Seq<char>>(k),
            Err(e) => ed25519_key(bytes@) == Err::<ed25519_dalek::VerifyingKey, Seq<char>>(e@),
        },
{
    match ed25519_dalek::VerifyingKey::from_bytes(&<[u8; 32]>::try_from(bytes).unwrap()) {
        Ok(k) => Ok(k),
        Err(e) => Err(e.to_string()),
    }
}

/// 64 bytes are a signature of a message under a key.
pub uninterp spec fn ed25519_holds(
    key: ed25519_dalek::VerifyingKey,
    message: Seq<u8>,
    signature: Seq<u8>,
) -> bool;

/// `VerifyingKey::verify`: whether the signature is one of the message under the key.
#[verifier::external_body]
fn check_signature(key: &ed25519_dalek::VerifyingKey, message: &[u8], signature: &[u8]) -> (r: bool)
    requires
        signature@.len() == 64,
    ensures
        r == ed25519_holds(*key, message@, signature@),
{
    let s = ed25519_dalek::Signature::from_bytes(&<[u8; 64]>::try_from(signature).unwrap());
    ed25519_dalek::Verifier::verify(key, message, &s).is_ok()
}

/// `std::str::from_utf8`: the text that the bytes encode, where they are UTF-8.
#[verifier::external_body]
pub(crate) fn text_of_bytes(bytes: &[u8]) -> (r: Option<String>)
    ensures
        r is Some <==> valid_utf8(bytes@),
        r is Some ==> r->0@ == decode_utf8(bytes@),
{
    match std::str::from_utf8(bytes) {
        Ok(s) => Some(s.to_string()),
        Err(_) => None,
    }
}

// ── did:key ─────────────────────────────────────────────────────────────────────────────

/// The message about a DID that is no key.
pub open spec fn did_fault(what: Seq<char>, did: Seq<char>) -> Seq<char> {
    what + ": `"@ + did + "`"@
}

/// The bytes that a `did:key` in base58 holds, or what is wrong with it.
pub open spec fn did_bytes(did: Seq<char>) -> Result<Seq<u8>, Seq<char>> {
    match after_prefix(did, "did:key:"@) {
        None => Err(did_fault("not a did:key"@, did)),
        Some(body) => match after_prefix(body, "z"@) {
            None => Err(did_fault("did:key not base58btc (`z…`)"@, did)),
            Some(b58) => match base58_bytes(b58) {
                Ok(b) => Ok(b),
                Err(e) => Err("did:key base58 decode: "@ + e),
            },
        },
    }
}

/// Up to two bytes, as they are shown.
pub open spec fn shown_bytes(b: Seq<u8>) -> Seq<char> {
    if b.len() == 0 {
        "[]"@
    } else if b.len() == 1 {
        "["@ + hex(b) + "]"@
    } else {
        "["@ + hex(b.take(1)) + ", "@ + hex(b.subrange(1, 2)) + "]"@
    }
}

/// The 32 bytes of the Ed25519 key that a `did:key` holds: what follows the two bytes that
/// name the kind of key. Else what is wrong with it.
pub open spec fn did_key(did: Seq<char>) -> Result<Seq<u8>, Seq<char>> {
    match did_bytes(did) {
        Ok(b) => if b.len() == 34 && b[0] == 0xed && b[1] == 0x01 {
            Ok(b.skip(2))
        } else {
            Err(
                "did:key not an ed25519-pub multicodec (len "@ + nat_text(b.len()) + ", prefix "@
                    + shown_bytes(b) + ")"@,
            )
        },
        Err(e) => Err(e),
    }
}

/// An `Identity` error with this message.
pub open spec fn identity_error(e: DackError, message: Seq<char>) -> bool {
    e is Identity && (e->Identity_0)@ == message
}

fn did_error(what: &str, did: &str) -> (r: DackError)
    ensures
        identity_error(r, did_fault(what@, did@)),
{
    let mut m = owned(what);
    m.append(": `");
    m.append(did);
    m.append("`");
    DackError::Identity(m)
}

fn show_bytes(b: &Vec<u8>) -> (r: String)
    ensures
        r@ == shown_bytes(b@),
{
    if b.len() == 0 {
        return owned("[]");
    }
    let first = vec![b[0]];
    let mut out = owned("[");
    out.append(to_hex(&first).as_str());
    if b.len() == 1 {
        assert(first@ =~= b@);
    } else {
        let second = vec![b[1]];
        assert(first@ =~= b@.take(1));
        assert(second@ =~= b@.subrange(1, 2));
        out.append(", ");
        out.append(to_hex(&second).as_str());
    }
    out.append("]");
    out
}

fn did_key_to_ed25519(did: &str) -> (r: Result<Vec<u8>, DackError>)
    ensures
        match did_key(did@) {
            Ok(k) => r is Ok && r->Ok_0@ == k && k.len() == 32,
            Err(m) => r is Err && identity_error(r->Err_0, m),
        },
{
    let body = match strip_prefix(did, "did:key:") {
        Some(x) => x,
        None => return Err(did_error("not a did:key", did)),
    };
    let b58 = match strip_prefix(body.as_str(), "z") {
        Some(x) => x,
        None => return Err(did_error("did:key not base58btc (`z…`)", did)),
    };
    let bytes = match decode_base58(b58.as_str()) {
        Ok(x) => x,
        Err(e) => {
            let mut m = owned("did:key base58 decode: ");
            m.append(e.as_str());
            return Err(DackError::Identity(m));
        },
    };
    if bytes.len() != 34 || bytes[0] != 0xed || bytes[1] != 0x01 {
        let mut m = owned("did:key not an ed25519-pub multicodec (len ");
        m.append(u64_text(bytes.len() as u64).as_str());
        m.append(", prefix ");
        m.append(show_bytes(&bytes).as_str());
        m.append(")");
        return Err(DackError::Identity(m));
    }
    let mut key: Vec<u8> = Vec::new();
    let mut i: usize = 2;
    while i < 34
        invariant
            2 <= i <= 34,
            bytes@.len() == 34,
            key@ == bytes@.subrange(2, i as int),
        decreases 34 - i,
    {
        key.push(bytes[i]);
        assert(bytes@.subrange(2, i + 1) =~= bytes@.subrange(2, i as int).push(bytes@[i as int]));
        i += 1;
    }
    assert(key@ =~= bytes@.skip(2));
    Ok(key)
}

// ── Signatures ──────────────────────────────────────────────────────────────────────────

/// Bytes that can be a signature.
pub open spec fn sized_64(b: Option<Seq<u8>>) -> bool {
    b is Some && b->0.len() == 64
}

/// The 64 bytes of a stored signature, or what is wrong with it. Its base64 text is read in
/// the URL-safe alphabet and then in the standard one, each without and then with padding.
pub open spec fn signature_bytes(raw: Seq<u8>) -> Result<Seq<u8>, Seq<char>> {
    if !valid_utf8(raw) {
        Err("signature not UTF-8 base64"@)
    } else {
        let s = trimmed(decode_utf8(raw));
        if sized_64(base64_bytes(true, false, s)) {
            Ok(base64_bytes(true, false, s)->0)
        } else if sized_64(base64_bytes(true, true, s)) {
            Ok(base64_bytes(true, true, s)->0)
        } else if sized_64(base64_bytes(false, false, s)) {
            Ok(base64_bytes(false, false, s)->0)
        } else if sized_64(base64_bytes(false, true, s)) {
            Ok(base64_bytes(false, true, s)->0)
        } else {
            Err("signature did not base64-decode to 64 bytes (`"@ + s.take(fitting(s, 12)) + "…`)"@)
        }
    }
}

fn head_of(s: &str) -> (r: String)
    ensures
        r@ == s@.take(fitting(s@, 12)),
{
    match fit(s, 12) {
        Some(head) => head,
        None => {
            assert(s@.take(s@.len() as int) =~= s@);
            owned(s)
        },
    }
}

fn decode_64(url_safe: bool, padded: bool, text: &str) -> (r: Option<Vec<u8>>)
    ensures
        match r {
            Some(v) => base64_bytes(url_safe, padded, text@) == Some(v@) && v@.len() == 64,
            None => !sized_64(base64_bytes(url_safe, padded, text@)),
        },
{
    match decode_base64(url_safe, padded, text) {
        Some(v) => {
            assert(v.deep_view() =~= v@);
            if v.len() == 64 {
                Some(v)
            } else {
                None
            }
        },
        None => None,
    }
}

fn decode_signature_64(raw: &[u8]) -> (r: Result<Vec<u8>, DackError>)
    ensures
        match signature_bytes(raw@) {
            Ok(b) => r is Ok && r->Ok_0@ == b && b.len() == 64,
            Err(m) => r is Err && identity_error(r->Err_0, m),
        },
{
    let text = match text_of_bytes(raw) {
        Some(t) => t,
        None => return Err(DackError::Identity(owned("signature not UTF-8 base64"))),
    };
    let s = trim(text.as_str());
    if let Some(v) = decode_64(true, false, s.as_str()) {
        return Ok(v);
    }
    if let Some(v) = decode_64(true, true, s.as_str()) {
        return Ok(v);
    }
    if let Some(v) = decode_64(false, false, s.as_str()) {
        return Ok(v);
    }
    match decode_64(false, true, s.as_str()) {
        Some(v) => Ok(v),
        None => {
            let mut m = owned("signature did not base64-decode to 64 bytes (`");
            m.append(head_of(s.as_str()).as_str());
            m.append("…`)");
            Err(DackError::Identity(m))
        },
    }
}

/// Whether a signature is one of the payload under the key of a DID, or what is wrong where
/// the DID or the signature cannot be read.
pub open spec fn did_signed(did: Seq<char>, payload: Seq<u8>, sig: Seq<u8>) -> Result<
    bool,
    Seq<char>,
> {
    match did_key(did) {
        Err(m) => Err(m),
        Ok(k) => match ed25519_key(k) {
            Err(e) => Err("did pubkey not a valid ed25519 point: "@ + e),
            Ok(key) => match signature_bytes(sig) {
                Err(m) => Err(m),
                Ok(s) => Ok(ed25519_holds(key, payload, s)),
            },
        },
    }
}

/// Checks a signature of the payload under the key of a DID. A well-formed signature that
/// is not one is `false`; a DID or a signature that cannot be read is an `Identity` error.
pub fn verify_ed25519_did(did: &Did, payload: &[u8], sig: &Signature) -> (r: Result<
    bool,
    DackError,
>)
    ensures
        match did_signed(did@, payload@, sig.0@) {
            Ok(b) => r is Ok && r->Ok_0 == b,
            Err(m) => r is Err && identity_error(r->Err_0, m),
        },
{
    let pubkey = match did_key_to_ed25519(did.0.as_str()) {
        Ok(k) => k,
        Err(e) => return Err(e),
    };
    let key = match read_key(pubkey.as_slice()) {
        Ok(k) => k,
        Err(e) => {
            let mut m = owned("did pubkey not a valid ed25519 point: ");
            m.append(e.as_str());
            return Err(DackError::Identity(m));
        },
    };
    let bytes = match decode_signature_64(sig.0.as_slice()) {
        Ok(b) => b,
        Err(e) => return Err(e),
    };
    Ok(check_signature(&key, payload, bytes.as_slice()))
}

// ── The identity directories ────────────────────────────────────────────────────────────

/// Identities that the `gl` tool keeps, one directory per role.
#[derive(Debug)]
pub struct GitlawbIdentity {
    pub gl_bin: String,
    pub dirs: Vec<(IdentityRole, String)>,
    pub dids: Vec<(IdentityRole, Did)>,
}

/// What a tool printed and how it ended.
#[derive(Debug)]
pub struct ToolOutput {
    pub success: bool,
    pub stdout: String,
    pub stderr: String,
}

/// The name of a role.
pub open spec fn role_name(role: IdentityRole) -> Seq<char> {
    match role {
        IdentityRole::Operator => "Operator"@,
        IdentityRole::Soul => "Soul"@,
        IdentityRole::Builder => "Builder"@,
    }
}

fn show_role(role: IdentityRole) -> (r: &'static str)
    ensures
        r@ == role_name(role),
{
    match role {
        IdentityRole::Operator => "Operator",
        IdentityRole::Soul => "Soul",
        IdentityRole::Builder => "Builder",
    }
}

/// The value of a role, where it has one.
pub open spec fn of_role<V>(v: Seq<(IdentityRole, V)>, role: IdentityRole) -> Option<V>
    decreases v.len(),
{
    if v.len() == 0 {
        None
    } else if v[0].0 == role {
        Some(v[0].1)
    } else {
        of_role(v.skip(1), role)
    }
}

/// The value of a role.
pub fn find_role<V>(v: &Vec<(IdentityRole, V)>, role: IdentityRole) -> (r: Option<&V>)
    ensures
        match r {
            Some(x) => of_role(v@, role) == Some(*x),
            None => of_role(v@, role) is None,
        },
{
    let mut i: usize = 0;
    assert(v@.skip(0) =~= v@);
    while i < v.len()
        invariant
            i <= v@.len(),
            of_role(v@, role) == of_role(v@.skip(i as int), role),
        decreases v@.len() - i,
    {
        assert(v@.skip(i as int)[0] == v@[i as int]);
        assert(v@.skip(i as int).skip(1) =~= v@.skip(i + 1));
        if v[i].0 == role {
            return Some(&v[i].1);
        }
        i += 1;
    }
    None
}

/// What a successful tool printed, trimmed; else an `Identity` error with what it complained.
pub fn tool_answer(command: &str, out: &ToolOutput) -> (r: Result<String, DackError>)
    ensures
        if out.success {
            r is Ok && r->Ok_0@ == trimmed(out.stdout@)
        } else {
            r == Err::<String, DackError>(DackError::Identity(r->Err_0->Identity_0)) && (
            r->Err_0->Identity_0)@ == command@ + ": "@ + trimmed(out.stderr@)
        },
{
    if out.success {
        return Ok(trim(out.stdout.as_str()));
    }
    let mut m = owned(command);
    m.append(": ");
    m.append(trim(out.stderr.as_str()).as_str());
    Err(DackError::Identity(m))
}

impl GitlawbIdentity {
    /// The DID of a role.
    pub fn did(&self, role: IdentityRole) -> (r: Option<&Did>)
        ensures
            match r {
                Some(d) => of_role(self.dids@, role) == Some(*d),
                None => of_role(self.dids@, role) is None,
            },
    {
        find_role(&self.dids, role)
    }

    /// The command that prints the DID of a directory.
    pub fn show_command(&self, dir: &str) -> (r: Vec<String>)
        ensures
            r.deep_view() == seq![self.gl_bin@, "identity"@, "show"@, "--dir"@, dir@],
    {
        let r = vec![
            self.gl_bin.clone(),
            owned("identity"),
            owned("show"),
            owned("--dir"),
            owned(dir),
        ];
        assert(r.deep_view() =~= seq![self.gl_bin@, "identity"@, "show"@, "--dir"@, dir@]);
        r
    }

    /// The command that signs a payload as a role. A role without a directory, and a payload
    /// that is no text, cannot be signed.
    pub fn sign_command(&self, role: IdentityRole, payload: &[u8]) -> (r: Result<
        Vec<String>,
        DackError,
    >)
        ensures
            match of_role(self.dirs@, role) {
                None => r is Err && identity_error(
                    r->Err_0,
                    "no identity dir for "@ + role_name(role),
                ),
                Some(dir) => if valid_utf8(payload@) {
                    r is Ok && r->Ok_0.deep_view() == seq![
                        self.gl_bin@,
                        "identity"@,
                        "sign"@,
                        "--dir"@,
                        dir@,
                        decode_utf8(payload@),
                    ]
                } else {
                    r is Err && identity_error(
                        r->Err_0,
                        "sign payload not UTF-8 (v1 limitation)"@,
                    )
                },
            },
    {
        let dir = match find_role(&self.dirs, role) {
            Some(d) => d,
            None => {
                let mut m = owned("no identity dir for ");
                m.append(show_role(role));
                return Err(DackError::Identity(m));
            },
        };
        let message = match text_of_bytes(payload) {
            Some(m) => m,
            None => return Err(
                DackError::Identity(owned("sign payload not UTF-8 (v1 limitation)")),
            ),
        };
        let ghost mv = message@;
        let v = vec![
            self.gl_bin.clone(),
            owned("identity"),
            owned("sign"),
            owned("--dir"),
            dir.clone(),
            message,
        ];
        assert(v.deep_view() =~= seq![
            self.gl_bin@,
            "identity"@,
            "sign"@,
            "--dir"@,
            dir@,
            mv,
        ]);
        Ok(v)
    }
}

/// A key is named by its multicodec in base58, after the two prefixes: what follows the two bytes
/// of the codec is the key, of thirty-two bytes.
pub proof fn a_did_names_its_key(b58: Seq<char>, b: Seq<u8>, did: Seq<char>)
    ensures
        base58_bytes(b58) == Ok::<Seq<u8>, Seq<char>>(b) && b.len() == 34 && b[0] == 0xed && b[1]
            == 0x01 ==> did_key("did:key:z"@ + b58) == Ok::<Seq<u8>, Seq<char>>(b.skip(2)),
        base58_bytes(b58) == Ok::<Seq<u8>, Seq<char>>(b) && !(b.len() == 34 && b[0] == 0xed && b[1]
            == 0x01) ==> did_key("did:key:z"@ + b58) is Err,
        base58_bytes(b58) is Err ==> did_key("did:key:z"@ + b58) is Err,
        !has_prefix(did, "did:key:z"@) ==> did_key(did) is Err,
        did_key(did) matches Ok(k) ==> k.len() == 32,
{
    reveal_strlit("did:key:");
    reveal_strlit("z");
    reveal_strlit("did:key:z");
    let t = "did:key:z"@ + b58;
    assert(t.subrange(0, 8) =~= "did:key:"@);
    assert(t.skip(8).subrange(0, 1) =~= "z"@);
    assert(t.skip(8).skip(1) =~= b58);
    if did_key(did) is Ok {
        let body = did.skip(8);
        assert(occurs_at(did, "did:key:"@, 0));
        assert(occurs_at(body, "z"@, 0));
        assert(did.subrange(0, 9) =~= "did:key:z"@) by {
            assert(did.subrange(0, 8) == "did:key:"@);
            assert(body.subrange(0, 1) == "z"@);
            assert(body.subrange(0, 1)[0] == did[8]);
            assert forall|i: int| 0 <= i < 8 implies did[i] == "did:key:"@[i] by {
                assert(did.subrange(0, 8)[i] == did[i]);
            }
        }
        assert(occurs_at(did, "did:key:z"@, 0));
    }
}

/// A signature is text that decodes to sixty-four bytes in one of the four alphabets; the first
/// that gives them counts, and white space around it does not.
pub proof fn a_signature_has_sixty_four_bytes(raw: Seq<u8>)
    ensures
        ({
            let s = trimmed(decode_utf8(raw));
            let r = signature_bytes(raw);
            &&& r is Ok <==> valid_utf8(raw) && (sized_64(base64_bytes(true, false, s)) || sized_64(
                base64_bytes(true, true, s),
            ) || sized_64(base64_bytes(false, false, s)) || sized_64(base64_bytes(false, true, s)))
            &&& r matches Ok(x) ==> x.len() == 64 && (base64_bytes(true, false, s) == Some(x)
                || base64_bytes(true, true, s) == Some(x) || base64_bytes(false, false, s) == Some(x)
                || base64_bytes(false, true, s) == Some(x))
            &&& valid_utf8(raw) && sized_64(base64_bytes(true, false, s)) ==> r == Ok::<
                Seq<u8>,
                Seq<char>,
            >(base64_bytes(true, false, s)->0)
        }),
{
}

/// Something is signed by an identity where the key that its name gives holds of the payload and the
/// signature, and there is an answer only where both can be read.
pub proof fn the_key_of_the_name_decides(did: Seq<char>, payload: Seq<u8>, sig: Seq<u8>)
    ensures
        did_signed(did, payload, sig) matches Ok(answer) ==> {
            &&& did_key(did) is Ok
            &&& ed25519_key(did_key(did)->Ok_0) is Ok
            &&& signature_bytes(sig) is Ok
            &&& answer == ed25519_holds(
                ed25519_key(did_key(did)->Ok_0)->Ok_0,
                payload,
                signature_bytes(sig)->Ok_0,
            )
        },
        did_key(did) is Ok && ed25519_key(did_key(did)->Ok_0) is Ok && signature_bytes(sig) is Ok
            ==> did_signed(did, payload, sig) is Ok,
{
}

/// What belongs to a role is the first that is kept for it, and nothing where none is.
pub proof fn a_role_has_its_own<V>(v: Seq<(IdentityRole, V)>, role: IdentityRole, i: int)
    ensures
        0 <= i < v.len() && v[i].0 == role && (forall|j: int|
            0 <= j < i ==> (#[trigger] v[j]).0 != role) ==> of_role(v, role) == Some(v[i].1),
        (forall|j: int| 0 <= j < v.len() ==> (#[trigger] v[j]).0 != role) ==> of_role(v, role)
            is None,
        role_name(IdentityRole::Operator) == "Operator"@,
        role_name(IdentityRole::Soul) == "Soul"@,
        role_name(IdentityRole::Builder) == "Builder"@,
    decreases v.len(),
{
    if v.len() > 0 {
        let rest = v.skip(1);
        a_role_has_its_own(rest, role, i - 1);
        assert(forall|j: int| #![trigger rest[j]] 0 <= j < rest.len() ==> rest[j] == v[j + 1]);
        if i > 0 {
            assert(i < v.len() ==> rest[i - 1] == v[i]);
        }
    }
}

} // verus!
