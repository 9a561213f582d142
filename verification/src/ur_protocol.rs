//! UR (Uniform Resource) messages exchanged with Keystone: their text form,
//! key paths, and the public keys and signatures they carry.
use crate::json::{json_str_field, spec_json_str_field};
use crate::keys::{
    pubkey_from_str, pubkey_to_string, spec_pubkey_from_str, spec_pubkey_to_string, DerivationPath,
    Pubkey, Signature,
};
use crate::text::{
    chars_eq_str, chars_of, decimal_chars, is_digit, lemma_decimal_digits, lemma_parse_decimal,
    lemma_split_append, lemma_split_concat, lemma_split_no_sep,
    parse_unsigned, spec_decimal, spec_parse_unsigned, spec_split, split_chars, string_of,
    utf8_to_string,
};
use vstd::prelude::*;
use vstd::utf8::{decode_utf8, valid_utf8};

verus! {

/// A Solana transaction message.
#[verifier::external_type_specification]
#[verifier::external_body]
pub struct ExMessage(solana_sdk::message::Message);

/// UR protocol error.
#[derive(Debug, Clone, PartialEq, Eq)]
pub enum URProtocolError {
    InvalidURFormat(String),
    UnsupportedURType(String),
    SerializationError(String),
    DeserializationError(String),
    ProtocolError(String),
}

impl URProtocolError {
    /// The error's display text.
    pub open spec fn spec_message(self) -> Seq<char> {
        match self {
            URProtocolError::InvalidURFormat(s) => "Invalid UR format: "@ + s@,
            URProtocolError::UnsupportedURType(s) => "Unsupported UR type: "@ + s@,
            URProtocolError::SerializationError(s) => "Serialization error: "@ + s@,
            URProtocolError::DeserializationError(s) => "Deserialization error: "@ + s@,
            URProtocolError::ProtocolError(s) => "Protocol error: "@ + s@,
        }
    }

    pub fn message(&self) -> (res: String)
        ensures
            res@ == self.spec_message(),
    {
        let (prefix, s) = match self {
            URProtocolError::InvalidURFormat(s) => ("Invalid UR format: ", s),
            URProtocolError::UnsupportedURType(s) => ("Unsupported UR type: ", s),
            URProtocolError::SerializationError(s) => ("Serialization error: ", s),
            URProtocolError::DeserializationError(s) => ("Deserialization error: ", s),
            URProtocolError::ProtocolError(s) => ("Protocol error: ", s),
        };
        let mut m = String::from_str(prefix);
        m.append(s.as_str());
        m
    }
}

/// UR (Uniform Resource) structure
#[derive(Debug, Clone, PartialEq, Eq)]
pub struct UR {
    pub ur_type: String,
    pub cbor_data: Vec<u8>,
}

/// Crypto-Keypath structure for derivation paths
#[derive(Debug, Clone, PartialEq, Eq)]
pub struct CryptoKeypath {
    pub components: Vec<KeypathComponent>,
    pub source_fingerprint: Option<u32>,
    pub depth: Option<u8>,
}

/// Keypath component structure
#[derive(Debug, Clone, Copy, PartialEq, Eq, Structural)]
pub struct KeypathComponent {
    pub index: u32,
    pub hardened: bool,
}

/// Crypto-SignRequest structure for signing requests
#[derive(Debug, Clone, PartialEq, Eq)]
pub struct CryptoSignRequest {
    pub sign_data: Vec<u8>,
    pub derivation_path: CryptoKeypath,
    pub use_psbt_sighash: Option<bool>,
    pub script_type: Option<String>,
}

/// Crypto-Signature structure for signatures
#[derive(Debug, Clone, PartialEq, Eq)]
pub struct CryptoSignature {
    pub signature: Vec<u8>,
    pub public_key: Vec<u8>,
    pub label: Option<String>,
}

// ---------------------------------------------------------------------------
// Outside encodings
// ---------------------------------------------------------------------------

/// The characters of the standard base64 alphabet and its padding.
pub open spec fn is_base64_char(c: char) -> bool {
    ('A' <= c <= 'Z') || ('a' <= c <= 'z') || ('0' <= c <= '9') || c == '+' || c == '/' || c
        == '='
}

/// The standard, padded base64 text of some bytes.
pub uninterp spec fn spec_base64_encode(bytes: Seq<u8>) -> Seq<char>;

/// `base64::encode` (standard alphabet, padded). Its output is made of the
/// alphabet's characters and `=` only.
#[verifier::external_body]
fn base64_encode(bytes: &[u8]) -> (res: String)
    ensures
        res@ == spec_base64_encode(bytes@),
        forall|i: int| 0 <= i < res@.len() ==> is_base64_char(#[trigger] res@[i]),
{
    #[allow(deprecated)]
    base64::encode(bytes)
}

/// What `base64::decode` makes of a text: the bytes, or the text of the error.
pub uninterp spec fn spec_base64_decode(s: Seq<char>) -> Result<Seq<u8>, Seq<char>>;

/// `base64::decode` (standard alphabet, padded). It reads the text that
/// `base64::encode` makes of some bytes back as those bytes.
#[verifier::external_body]
fn base64_decode(s: &str) -> (res: Result<Vec<u8>, String>)
    ensures
        match spec_base64_decode(s@) {
            Ok(b) => res matches Ok(v) && v@ == b,
            Err(m) => res matches Err(e) && e@ == m,
        },
        res is Ok || forall|b: Seq<u8>| s@ != spec_base64_encode(b),
        res matches Ok(v) ==> forall|b: Seq<u8>| s@ == spec_base64_encode(b) ==> v@ == b,
{
    #[allow(deprecated)]
    base64::decode(s).map_err(|e| e.to_string())
}

/// What `serde_cbor` makes of bytes read as a CBOR byte string or array of
/// bytes: the bytes, or the text of the error.
pub uninterp spec fn spec_cbor_decode_bytes(data: Seq<u8>) -> Result<Seq<u8>, Seq<char>>;

/// `serde_cbor::from_slice::<Vec<u8>>`.
#[verifier::external_body]
fn cbor_decode_bytes(data: &[u8]) -> (res: Result<Vec<u8>, String>)
    ensures
        match spec_cbor_decode_bytes(data@) {
            Ok(b) => res matches Ok(v) && v@ == b,
            Err(m) => res matches Err(e) && e@ == m,
        },
{
    serde_cbor::from_slice::<Vec<u8>>(data).map_err(|e| e.to_string())
}

// ---------------------------------------------------------------------------
// Specifications
// ---------------------------------------------------------------------------

/// The text form of a UR: its type, `:`, and the base64 of its data.
pub open spec fn spec_encode_ur(ur: UR) -> Seq<char> {
    ur.ur_type@ + seq![':'] + spec_base64_encode(ur.cbor_data@)
}

/// Whether `r` is what decoding the text `s` gives: the text must split at
/// `:` into exactly a type and a base64 payload.
pub open spec fn spec_decode_ur(s: Seq<char>, r: Result<UR, URProtocolError>) -> bool {
    let parts = spec_split(s, ':');
    if parts.len() != 2 {
        r matches Err(URProtocolError::InvalidURFormat(m)) && m@ == "Invalid UR string format"@
    } else {
        match spec_base64_decode(parts[1]) {
            Ok(b) => r matches Ok(u) && u.ur_type@ == parts[0] && u.cbor_data@ == b,
            Err(e) => r matches Err(URProtocolError::InvalidURFormat(m)) && m@ == "Invalid base64: "@
                + e,
        }
    }
}

/// The UR types this protocol knows.
pub open spec fn spec_is_known_ur_type(t: Seq<char>) -> bool {
    t == "crypto-sign-request"@ || t == "crypto-signature"@ || t == "crypto-pubkey"@ || t
        == "crypto-account"@ || t == "crypto-transaction"@ || t == "crypto-request"@
}

/// A path piece that stands for no index: empty, or the master key marker `m`.
pub open spec fn spec_is_root_piece(p: Seq<char>) -> bool {
    p.len() == 0 || p == "m"@
}

/// The component a path piece names: the decimal index, hardened when the
/// piece ends in `'`; or the parse error of the index.
pub open spec fn spec_component_of(p: Seq<char>) -> Result<KeypathComponent, Seq<char>> {
    let hardened = p.len() > 0 && p.last() == '\'';
    let digits = if hardened {
        p.drop_last()
    } else {
        p
    };
    match spec_parse_unsigned(digits, 0xffff_ffff) {
        Ok(n) => Ok(KeypathComponent { index: n as u32, hardened }),
        Err(e) => Err("Invalid index: "@ + e.spec_message()),
    }
}

/// The components of the path pieces from the first on, stopping at the
/// first piece that fails.
pub open spec fn spec_components(pieces: Seq<Seq<char>>) -> Result<Seq<KeypathComponent>, Seq<char>>
    decreases pieces.len(),
{
    if pieces.len() == 0 {
        Ok(Seq::empty())
    } else {
        match spec_components(pieces.drop_last()) {
            Err(e) => Err(e),
            Ok(cs) => if spec_is_root_piece(pieces.last()) {
                Ok(cs)
            } else {
                match spec_component_of(pieces.last()) {
                    Ok(c) => Ok(cs.push(c)),
                    Err(e) => Err(e),
                }
            },
        }
    }
}

/// The components of a `/`-separated path such as `m/44'/501'/0'/0'`.
pub open spec fn spec_parse_derivation_path(path: Seq<char>) -> Result<Seq<KeypathComponent>, Seq<char>> {
    if path.len() == 0 {
        Ok(Seq::empty())
    } else {
        spec_components(spec_split(path, '/'))
    }
}

/// The text of a key path: each component as its index, with `'` when
/// hardened, joined with `/`.
pub open spec fn spec_keypath_text(cs: Seq<KeypathComponent>) -> Seq<char>
    decreases cs.len(),
{
    if cs.len() == 0 {
        Seq::empty()
    } else {
        let last = cs.last();
        let piece = if last.hardened {
            spec_decimal(last.index as nat).push('\'')
        } else {
            spec_decimal(last.index as nat)
        };
        if cs.len() == 1 {
            piece
        } else {
            spec_keypath_text(cs.drop_last()) + seq!['/'] + piece
        }
    }
}

/// UR protocol implementation
pub struct URProtocol;

/// The JSON text of one key path component.
pub open spec fn spec_component_json(c: KeypathComponent) -> Seq<char> {
    "{\"index\":"@ + spec_decimal(c.index as nat) + ",\"hardened\":"@ + (if c.hardened {
        "true"@
    } else {
        "false"@
    }) + "}"@
}

/// The JSON texts of key path components, separated by commas.
pub open spec fn spec_components_json(cs: Seq<KeypathComponent>) -> Seq<char>
    decreases cs.len(),
{
    if cs.len() == 0 {
        Seq::empty()
    } else if cs.len() == 1 {
        spec_component_json(cs[0])
    } else {
        spec_components_json(cs.drop_last()) + ","@ + spec_component_json(cs.last())
    }
}

/// The JSON text of an optional number: the number, or `null`.
pub open spec fn spec_optional_json(n: Option<nat>) -> Seq<char> {
    match n {
        Some(v) => spec_decimal(v),
        None => "null"@,
    }
}

/// The JSON text of a request to export the public key of a key path.
pub open spec fn spec_export_pubkey_json(
    cs: Seq<KeypathComponent>,
    source_fingerprint: Option<u32>,
    depth: Option<u8>,
) -> Seq<char> {
    "{\"type\":\"export-pubkey\",\"chain\":\"solana\",\"derivation_path\":{\"components\":["@
        + spec_components_json(cs) + "],\"source_fingerprint\":"@ + spec_optional_json(
        match source_fingerprint {
            Some(f) => Some(f as nat),
            None => None,
        },
    ) + ",\"depth\":"@ + spec_optional_json(
        match depth {
            Some(d) => Some(d as nat),
            None => None,
        },
    ) + "}}"@
}

/// Appends the characters of `s` to `out`.
fn push_str(out: &mut Vec<char>, s: &str)
    ensures
        final(out)@ == old(out)@ + s@,
{
    let mut v = chars_of(s);
    out.append(&mut v);
}

/// Appends the JSON text of an optional number to `out`.
fn push_optional(out: &mut Vec<char>, n: Option<u64>)
    ensures
        final(out)@ == old(out)@ + spec_optional_json(
            match n {
                Some(v) => Some(v as nat),
                None => None,
            },
        ),
{
    match n {
        Some(v) => {
            let mut d = decimal_chars(v);
            out.append(&mut d);
        },
        None => push_str(out, "null"),
    }
}

/// The JSON text of a request to export the public key of `keypath`.
pub fn export_pubkey_json(keypath: &CryptoKeypath) -> (res: String)
    ensures
        res@ == spec_export_pubkey_json(
            keypath.components@,
            keypath.source_fingerprint,
            keypath.depth,
        ),
{
    let mut out: Vec<char> = Vec::new();
    push_str(
        &mut out,
        "{\"type\":\"export-pubkey\",\"chain\":\"solana\",\"derivation_path\":{\"components\":[",
    );
    let ghost head = out@;
    let cs = &keypath.components;
    let mut i: usize = 0;
    while i < cs.len()
        invariant
            i <= cs@.len(),
            out@ == head + spec_components_json(cs@.subrange(0, i as int)),
        decreases cs.len() - i,
    {
        let ghost prev = cs@.subrange(0, i as int);
        let ghost next = cs@.subrange(0, i + 1);
        assert(next.drop_last() =~= prev);
        if i > 0 {
            push_str(&mut out, ",");
        }
        let c = cs[i];
        push_str(&mut out, "{\"index\":");
        let mut d = decimal_chars(c.index as u64);
        out.append(&mut d);
        push_str(&mut out, ",\"hardened\":");
        if c.hardened {
            push_str(&mut out, "true");
        } else {
            push_str(&mut out, "false");
        }
        push_str(&mut out, "}");
        i = i + 1;
        proof {
            if i == 1 {
                assert(next =~= seq![c]);
            }
            assert(out@ =~= head + spec_components_json(next));
        }
    }
    assert(cs@.subrange(0, cs@.len() as int) =~= cs@);
    push_str(&mut out, "],\"source_fingerprint\":");
    push_optional(
        &mut out,
        match keypath.source_fingerprint {
            Some(f) => Some(f as u64),
            None => None,
        },
    );
    push_str(&mut out, ",\"depth\":");
    push_optional(
        &mut out,
        match keypath.depth {
            Some(d) => Some(d as u64),
            None => None,
        },
    );
    push_str(&mut out, "}}");
    string_of(&out)
}

/// What `serde_json::from_str::<serde_json::Value>` makes of a JSON text,
/// encoded by `serde_cbor::to_vec`: the CBOR bytes, or the text of the error.
pub uninterp spec fn spec_json_text_cbor(text: Seq<char>) -> Result<Seq<u8>, Seq<char>>;

/// The CBOR encoding (`serde_cbor::to_vec`) of the JSON value that
/// `serde_json::from_str` reads from `text`, or the text of the error.
#[verifier::external_body]
fn json_text_cbor(text: &str) -> (res: Result<Vec<u8>, String>)
    ensures
        match spec_json_text_cbor(text@) {
            Ok(b) => res matches Ok(v) && v@ == b,
            Err(e) => res matches Err(t) && t@ == e,
        },
{
    let value: serde_json::Value = serde_json::from_str(text).map_err(|e| e.to_string())?;
    serde_cbor::to_vec(&value).map_err(|e| e.to_string())
}

/// A Solana transaction as the `crypto-transaction` UR describes it: its
/// message header, account keys, recent blockhash and instructions, and its
/// signatures.
pub struct SolanaTransactionForm {
    pub num_required_signatures: u8,
    pub num_readonly_signed_accounts: u8,
    pub num_readonly_unsigned_accounts: u8,
    pub account_keys: Vec<Pubkey>,
    pub recent_blockhash: [u8; 32],
    pub instructions: Vec<SolanaInstructionForm>,
    pub signatures: Vec<Signature>,
}

/// A compiled instruction: the index of its program among the account keys,
/// the indices of its accounts, and its data.
pub struct SolanaInstructionForm {
    pub program_id_index: u8,
    pub accounts: Vec<u8>,
    pub data: Vec<u8>,
}

/// The base58 text of a hash, as `solana_sdk`'s `Hash` displays it.
pub uninterp spec fn spec_hash_to_string(bytes: Seq<u8>) -> Seq<char>;

/// `Display` of `solana_sdk::hash::Hash` (base58 of the 32 bytes).
#[verifier::external_body]
fn hash_to_string(bytes: &[u8; 32]) -> (res: String)
    ensures
        res@ == spec_hash_to_string(bytes@),
{
    solana_sdk::hash::Hash::new_from_array(*bytes).to_string()
}

/// Texts separated by commas.
pub open spec fn spec_join(items: Seq<Seq<char>>) -> Seq<char>
    decreases items.len(),
{
    if items.len() == 0 {
        Seq::empty()
    } else if items.len() == 1 {
        items[0]
    } else {
        spec_join(items.drop_last()) + ","@ + items.last()
    }
}

/// A text as a JSON string (the texts put there need no escapes).
pub open spec fn spec_quoted(t: Seq<char>) -> Seq<char> {
    "\""@ + t + "\""@
}

/// The JSON text of an instruction.
pub open spec fn spec_instruction_json(ix: SolanaInstructionForm) -> Seq<char> {
    "{\"program_id_index\":"@ + spec_decimal(ix.program_id_index as nat) + ",\"accounts\":["@
        + spec_join(ix.accounts@.map_values(|a: u8| spec_decimal(a as nat))) + "],\"data\":"@
        + spec_quoted(spec_base64_encode(ix.data@)) + "}"@
}

/// The JSON text of a transaction, as the `crypto-transaction` UR carries it.
pub open spec fn spec_transaction_json(tx: SolanaTransactionForm) -> Seq<char> {
    "{\"type\":\"solana-transaction\",\"transaction\":{\"message\":{\"header\":{\"num_required_signatures\":"@
        + spec_decimal(tx.num_required_signatures as nat) + ",\"num_readonly_signed_accounts\":"@
        + spec_decimal(tx.num_readonly_signed_accounts as nat)
        + ",\"num_readonly_unsigned_accounts\":"@ + spec_decimal(
        tx.num_readonly_unsigned_accounts as nat,
    ) + "},\"account_keys\":["@ + spec_join(
        tx.account_keys@.map_values(|k: Pubkey| spec_quoted(spec_pubkey_to_string(k.bytes@))),
    ) + "],\"recent_blockhash\":"@ + spec_quoted(spec_hash_to_string(tx.recent_blockhash@))
        + ",\"instructions\":["@ + spec_join(
        tx.instructions@.map_values(|ix: SolanaInstructionForm| spec_instruction_json(ix)),
    ) + "]},\"signatures\":["@ + spec_join(
        tx.signatures@.map_values(|s: Signature| spec_quoted(spec_base64_encode(s.bytes@))),
    ) + "]}}"@
}

/// Joining one more item adds a comma (unless it is the first) and the item.
proof fn lemma_join_push(items: Seq<Seq<char>>, item: Seq<char>)
    ensures
        spec_join(items.push(item)) == spec_join(items) + (if items.len() == 0 {
            Seq::empty()
        } else {
            ","@
        }) + item,
{
    assert(items.push(item).drop_last() =~= items);
    if items.len() == 0 {
        assert(items.push(item) =~= seq![item]);
        assert(Seq::<char>::empty() + Seq::<char>::empty() + item =~= item);
    }
}

/// Appends item `index` of a comma-separated list to `out`.
fn push_item(out: &mut Vec<char>, index: usize, item: &Vec<char>)
    ensures
        final(out)@ == old(out)@ + (if index == 0 {
            Seq::empty()
        } else {
            ","@
        }) + item@,
{
    if index > 0 {
        push_str(out, ",");
    }
    let mut v = item.clone();
    assert(v@ == item@);
    out.append(&mut v);
    proof {
        if index == 0 {
            assert(old(out)@ + Seq::<char>::empty() =~= old(out)@);
        }
    }
}

/// `t` as a JSON string.
fn quoted(t: &str) -> (res: Vec<char>)
    ensures
        res@ == spec_quoted(t@),
{
    let mut out: Vec<char> = Vec::new();
    push_str(&mut out, "\"");
    push_str(&mut out, t);
    push_str(&mut out, "\"");
    out
}

/// The JSON text of an instruction.
fn instruction_json(ix: &SolanaInstructionForm) -> (res: Vec<char>)
    ensures
        res@ == spec_instruction_json(*ix),
{
    let mut out: Vec<char> = Vec::new();
    push_str(&mut out, "{\"program_id_index\":");
    let mut d = decimal_chars(ix.program_id_index as u64);
    out.append(&mut d);
    push_str(&mut out, ",\"accounts\":[");
    let ghost head = out@;
    let ghost items = ix.accounts@.map_values(|a: u8| spec_decimal(a as nat));
    let mut i: usize = 0;
    while i < ix.accounts.len()
        invariant
            i <= ix.accounts@.len(),
            items == ix.accounts@.map_values(|a: u8| spec_decimal(a as nat)),
            out@ == head + spec_join(items.take(i as int)),
        decreases ix.accounts.len() - i,
    {
        let a = decimal_chars(ix.accounts[i] as u64);
        proof {
            lemma_join_push(items.take(i as int), a@);
            assert(items.take(i as int).push(a@) =~= items.take(i + 1));
        }
        push_item(&mut out, i, &a);
        i = i + 1;
    }
    assert(items.take(items.len() as int) =~= items);
    push_str(&mut out, "],\"data\":");
    let b = base64_encode(ix.data.as_slice());
    let mut q = quoted(b.as_str());
    out.append(&mut q);
    push_str(&mut out, "}");
    out
}

/// The JSON text of a transaction, as the `crypto-transaction` UR carries it.
pub fn transaction_json(tx: &SolanaTransactionForm) -> (res: String)
    ensures
        res@ == spec_transaction_json(*tx),
{
    let mut out: Vec<char> = Vec::new();
    push_str(
        &mut out,
        "{\"type\":\"solana-transaction\",\"transaction\":{\"message\":{\"header\":{\"num_required_signatures\":",
    );
    let mut d = decimal_chars(tx.num_required_signatures as u64);
    out.append(&mut d);
    push_str(&mut out, ",\"num_readonly_signed_accounts\":");
    let mut d = decimal_chars(tx.num_readonly_signed_accounts as u64);
    out.append(&mut d);
    push_str(&mut out, ",\"num_readonly_unsigned_accounts\":");
    let mut d = decimal_chars(tx.num_readonly_unsigned_accounts as u64);
    out.append(&mut d);
    push_str(&mut out, "},\"account_keys\":[");
    let ghost head = out@;
    let ghost keys = tx.account_keys@.map_values(
        |k: Pubkey| spec_quoted(spec_pubkey_to_string(k.bytes@)),
    );
    let mut i: usize = 0;
    while i < tx.account_keys.len()
        invariant
            i <= tx.account_keys@.len(),
            keys == tx.account_keys@.map_values(
                |k: Pubkey| spec_quoted(spec_pubkey_to_string(k.bytes@)),
            ),
            out@ == head + spec_join(keys.take(i as int)),
        decreases tx.account_keys.len() - i,
    {
        let t = pubkey_to_string(&tx.account_keys[i]);
        let q = quoted(t.as_str());
        proof {
            lemma_join_push(keys.take(i as int), q@);
            assert(keys.take(i as int).push(q@) =~= keys.take(i + 1));
        }
        push_item(&mut out, i, &q);
        i = i + 1;
    }
    assert(keys.take(keys.len() as int) =~= keys);
    push_str(&mut out, "],\"recent_blockhash\":");
    let h = hash_to_string(&tx.recent_blockhash);
    let mut q = quoted(h.as_str());
    out.append(&mut q);
    push_str(&mut out, ",\"instructions\":[");
    let ghost head2 = out@;
    let ghost ixs = tx.instructions@.map_values(
        |ix: SolanaInstructionForm| spec_instruction_json(ix),
    );
    let mut i: usize = 0;
    while i < tx.instructions.len()
        invariant
            i <= tx.instructions@.len(),
            ixs == tx.instructions@.map_values(|ix: SolanaInstructionForm| spec_instruction_json(ix)),
            out@ == head2 + spec_join(ixs.take(i as int)),
        decreases tx.instructions.len() - i,
    {
        let t = instruction_json(&tx.instructions[i]);
        proof {
            lemma_join_push(ixs.take(i as int), t@);
            assert(ixs.take(i as int).push(t@) =~= ixs.take(i + 1));
        }
        push_item(&mut out, i, &t);
        i = i + 1;
    }
    assert(ixs.take(ixs.len() as int) =~= ixs);
    push_str(&mut out, "]},\"signatures\":[");
    let ghost head3 = out@;
    let ghost sigs = tx.signatures@.map_values(
        |s: Signature| spec_quoted(spec_base64_encode(s.bytes@)),
    );
    let mut i: usize = 0;
    while i < tx.signatures.len()
        invariant
            i <= tx.signatures@.len(),
            sigs == tx.signatures@.map_values(
                |s: Signature| spec_quoted(spec_base64_encode(s.bytes@)),
            ),
            out@ == head3 + spec_join(sigs.take(i as int)),
        decreases tx.signatures.len() - i,
    {
        let b = base64_encode(tx.signatures[i].bytes.as_slice());
        let q = quoted(b.as_str());
        proof {
            lemma_join_push(sigs.take(i as int), q@);
            assert(sigs.take(i as int).push(q@) =~= sigs.take(i + 1));
        }
        push_item(&mut out, i, &q);
        i = i + 1;
    }
    assert(sigs.take(sigs.len() as int) =~= sigs);
    push_str(&mut out, "]}}");
    string_of(&out)
}

impl URProtocol {
    /// A Solana signing request UR (type `crypto-sign-request`, fixed data).
    pub fn create_solana_sign_request(message: &solana_sdk::message::Message, derivation_path: &DerivationPath) -> (res: Result<UR, URProtocolError>)
        ensures
            res matches Ok(ur) && ur.ur_type@ == "crypto-sign-request"@ && ur.cbor_data@ == seq![
                12u8,
                23u8,
                34u8,
            ],
    {
        let mut cbor_data: Vec<u8> = Vec::new();
        cbor_data.push(12);
        cbor_data.push(23);
        cbor_data.push(34);
        Ok(UR { ur_type: String::from_str("crypto-sign-request"), cbor_data })
    }

    /// The signature a `crypto-signature` UR carries, given what its CBOR
    /// data decodes to: the type is checked first, then the decoding, then
    /// that the signature has 64 bytes.
    pub fn parse_signature_response(ur: &UR, decoded: Result<CryptoSignature, String>) -> (res:
        Result<Signature, URProtocolError>)
        ensures
            ur.ur_type@ != "crypto-signature"@ ==> (res matches Err(
                URProtocolError::UnsupportedURType(t),
            ) && t@ == ur.ur_type@),
            ur.ur_type@ == "crypto-signature"@ ==> match decoded {
                Err(m) => res matches Err(URProtocolError::DeserializationError(t)) && t@ == m@,
                Ok(cs) => if cs.signature@.len() != 64 {
                    res matches Err(URProtocolError::InvalidURFormat(t)) && t@
                        == "Invalid signature length"@
                } else {
                    res matches Ok(sig) && sig.bytes@ == cs.signature@
                },
            },
    {
        let t = chars_of(ur.ur_type.as_str());
        if !chars_eq_str(&t, "crypto-signature") {
            return Err(URProtocolError::UnsupportedURType(ur.ur_type.clone()));
        }
        let crypto_signature = match decoded {
            Ok(cs) => cs,
            Err(m) => {
                return Err(URProtocolError::DeserializationError(m));
            },
        };
        match Signature::try_from_bytes(&crypto_signature.signature) {
            Some(s) => Ok(s),
            None => Err(URProtocolError::InvalidURFormat(String::from_str("Invalid signature length"))),
        }
    }

    /// The key path of a derivation path: the components its `key` query names.
    pub fn derivation_path_to_crypto_keypath(derivation_path: &DerivationPath) -> (res: Result<
        CryptoKeypath,
        URProtocolError,
    >)
        ensures
            match spec_parse_derivation_path(derivation_path.spec_get_query()) {
                Ok(cs) => res matches Ok(k) && k.components@ == cs && k.source_fingerprint is None
                    && k.depth == Some((cs.len() % 256) as u8),
                Err(m) => res matches Err(URProtocolError::InvalidURFormat(t)) && t@ == m,
            },
    {
        let query = derivation_path.get_query();
        let path_str = string_of(&query);
        let components = Self::parse_derivation_path(path_str.as_str())?;
        let depth = (components.len() % 256) as u8;
        Ok(CryptoKeypath { components, source_fingerprint: None, depth: Some(depth) })
    }

    /// A `crypto-request` UR asking for the public key of a derivation
    /// path: the CBOR of the JSON request naming the type `export-pubkey`,
    /// the chain `solana` and the path's key path.
    pub fn create_export_pubkey_request(derivation_path: &DerivationPath) -> (res: Result<
        UR,
        URProtocolError,
    >)
        ensures
            match spec_parse_derivation_path(derivation_path.spec_get_query()) {
                Err(m) => res matches Err(URProtocolError::InvalidURFormat(t)) && t@ == m,
                Ok(cs) => match spec_json_text_cbor(
                    spec_export_pubkey_json(cs, None, Some((cs.len() % 256) as u8)),
                ) {
                    Ok(b) => res matches Ok(ur) && ur.ur_type@ == "crypto-request"@
                        && ur.cbor_data@ == b,
                    Err(e) => res matches Err(URProtocolError::SerializationError(t)) && t@ == e,
                },
            },
    {
        let keypath = Self::derivation_path_to_crypto_keypath(derivation_path)?;
        let json = export_pubkey_json(&keypath);
        match json_text_cbor(json.as_str()) {
            Ok(cbor_data) => Ok(UR { ur_type: String::from_str("crypto-request"), cbor_data }),
            Err(e) => Err(URProtocolError::SerializationError(e)),
        }
    }

    /// A `crypto-transaction` UR carrying a Solana transaction: the CBOR of
    /// its JSON description.
    pub fn create_solana_transaction_ur(tx: &SolanaTransactionForm) -> (res: Result<
        UR,
        URProtocolError,
    >)
        ensures
            match spec_json_text_cbor(spec_transaction_json(*tx)) {
                Ok(b) => res matches Ok(ur) && ur.ur_type@ == "crypto-transaction"@
                    && ur.cbor_data@ == b,
                Err(e) => res matches Err(URProtocolError::SerializationError(t)) && t@ == e,
            },
    {
        let json = transaction_json(tx);
        match json_text_cbor(json.as_str()) {
            Ok(cbor_data) => Ok(UR { ur_type: String::from_str("crypto-transaction"), cbor_data }),
            Err(e) => Err(URProtocolError::SerializationError(e)),
        }
    }

    fn component_of(piece: &Vec<char>) -> (res: Result<KeypathComponent, URProtocolError>)
        ensures
            match spec_component_of(piece@) {
                Ok(c) => res == Ok::<KeypathComponent, URProtocolError>(c),
                Err(m) => res matches Err(URProtocolError::InvalidURFormat(t)) && t@ == m,
            },
    {
        let hardened = piece.len() > 0 && piece[piece.len() - 1] == '\'';
        let mut digits = piece.clone();
        if hardened {
            digits.pop();
            assert(digits@ =~= piece@.drop_last());
        }
        match parse_unsigned(&digits, 0xffff_ffff) {
            Ok(n) => Ok(KeypathComponent { index: n as u32, hardened }),
            Err(e) => {
                let mut m = chars_of("Invalid index: ");
                let em = e.message();
                let mut ev = chars_of(em.as_str());
                m.append(&mut ev);
                Err(URProtocolError::InvalidURFormat(string_of(&m)))
            },
        }
    }

    /// Parses a derivation path text into its components.
    pub fn parse_derivation_path(path: &str) -> (res: Result<Vec<KeypathComponent>, URProtocolError>)
        ensures
            match spec_parse_derivation_path(path@) {
                Ok(cs) => res matches Ok(v) && v@ == cs,
                Err(m) => res matches Err(URProtocolError::InvalidURFormat(t)) && t@ == m,
            },
    {
        let p = chars_of(path);
        if p.len() == 0 {
            return Ok(Vec::new());
        }
        let parts = split_chars(&p, '/');
        let ghost pieces = parts@.map_values(|x: Vec<char>| x@);
        let mut components: Vec<KeypathComponent> = Vec::new();
        let mut i: usize = 0;
        assert(pieces.subrange(0, 0) =~= Seq::<Seq<char>>::empty());
        while i < parts.len()
            invariant
                i <= parts@.len(),
                pieces == parts@.map_values(|x: Vec<char>| x@),
                pieces == spec_split(p@, '/'),
                p@ == path@,
                path@.len() > 0,
                spec_components(pieces.subrange(0, i as int)) == Ok::<
                    Seq<KeypathComponent>,
                    Seq<char>,
                >(components@),
            decreases parts.len() - i,
        {
            let part = &parts[i];
            let ghost taken = pieces.subrange(0, i + 1);
            assert(taken.drop_last() =~= pieces.subrange(0, i as int));
            assert(taken.last() == part@);
            let is_m = chars_eq_str(part, "m");
            if part.len() == 0 || is_m {
                i = i + 1;
                continue;
            }
            let c = match Self::component_of(part) {
                Ok(c) => c,
                Err(e) => {
                    proof {
                        assert(!spec_is_root_piece(taken.last()));
                        assert(spec_components(taken) is Err);
                        let rest = pieces.subrange(i + 1, pieces.len() as int);
                        assert(taken + rest =~= pieces);
                        lemma_components_error_persists(taken, rest);
                        assert(spec_components(pieces) == spec_components(taken));
                        assert(p@ == path@);
                        assert(spec_parse_derivation_path(path@) == spec_components(pieces));
                        assert(spec_components(taken) == Err::<Seq<KeypathComponent>, Seq<char>>(
                            spec_component_of(part@)->Err_0,
                        ));
                    }
                    return Err(e);
                },
            };
            components.push(c);
            i = i + 1;
        }
        assert(pieces.subrange(0, parts@.len() as int) =~= pieces);
        Ok(components)
    }

    fn keypath_text(components: &Vec<KeypathComponent>) -> (res: Vec<char>)
        ensures
            res@ == spec_keypath_text(components@),
    {
        let mut text: Vec<char> = Vec::new();
        let mut i: usize = 0;
        assert(components@.subrange(0, 0) =~= Seq::<KeypathComponent>::empty());
        while i < components.len()
            invariant
                i <= components@.len(),
                text@ == spec_keypath_text(components@.subrange(0, i as int)),
            decreases components.len() - i,
        {
            let c = components[i];
            let ghost taken = components@.subrange(0, i + 1);
            assert(taken.drop_last() =~= components@.subrange(0, i as int));
            if i > 0 {
                text.push('/');
            }
            let mut d = decimal_chars(c.index as u64);
            if c.hardened {
                d.push('\'');
            }
            text.append(&mut d);
            i = i + 1;
        }
        assert(components@.subrange(0, components@.len() as int) =~= components@);
        text
    }

    /// The derivation path a key path names, read as a Solana key string.
    pub fn crypto_keypath_to_derivation_path(keypath: &CryptoKeypath) -> (res: Result<
        DerivationPath,
        URProtocolError,
    >)
        ensures
            match crate::keys::spec_derivation_path_bits_from_key_str(
                spec_keypath_text(keypath.components@),
            ) {
                Ok(bits) => res matches Ok(d) && d.path@ == bits.map_values(
                    |b: u32| crate::keys::spec_child_from_bits(b),
                ),
                Err(e) => res matches Err(URProtocolError::InvalidURFormat(t)) && t@ == "Invalid path: "@
                    + e.spec_message(),
            },
    {
        let text = Self::keypath_text(&keypath.components);
        let path_str = string_of(&text);
        match DerivationPath::from_key_str(path_str.as_str()) {
            Ok(d) => Ok(d),
            Err(e) => {
                let mut m = String::from_str("Invalid path: ");
                let em = e.message();
                m.append(em.as_str());
                Err(URProtocolError::InvalidURFormat(m))
            },
        }
    }

    /// The public key a `crypto-pubkey` or `crypto-account` UR carries: a JSON
    /// document with a base58 `pubkey`, or else a CBOR byte string of 32 bytes.
    pub fn parse_pubkey_response(ur: &UR) -> (res: Result<Pubkey, URProtocolError>)
        ensures
            spec_parse_pubkey_response(ur, res),
    {
        let t = chars_of(ur.ur_type.as_str());
        if !chars_eq_str(&t, "crypto-pubkey") && !chars_eq_str(&t, "crypto-account") {
            return Err(URProtocolError::UnsupportedURType(ur.ur_type.clone()));
        }
        match utf8_to_string(ur.cbor_data.as_slice()) {
            Ok(json_str) => {
                match json_str_field(json_str.as_str(), "pubkey") {
                    Ok(Some(pubkey_str)) => {
                        return match pubkey_from_str(pubkey_str.as_str()) {
                            Ok(k) => Ok(k),
                            Err(e) => {
                                let mut m = String::from_str("Invalid pubkey: ");
                                let em = e.message();
                                m.append(em.as_str());
                                Err(URProtocolError::InvalidURFormat(m))
                            },
                        };
                    },
                    _ => {},
                }
            },
            Err(_) => {},
        }
        let bytes = match cbor_decode_bytes(ur.cbor_data.as_slice()) {
            Ok(b) => b,
            Err(m) => {
                return Err(URProtocolError::DeserializationError(m));
            },
        };
        match Pubkey::try_from_bytes(&bytes) {
            Some(k) => Ok(k),
            None => Err(URProtocolError::InvalidURFormat(String::from_str("Invalid pubkey length"))),
        }
    }

    /// Encodes a UR as `<type>:<base64 data>`; the data part holds no `:`.
    pub fn encode_ur(ur: &UR) -> (res: Result<String, URProtocolError>)
        ensures
            res matches Ok(s) && s@ == spec_encode_ur(*ur),
            forall|i: int|
                0 <= i < spec_base64_encode(ur.cbor_data@).len() ==> #[trigger] spec_base64_encode(
                    ur.cbor_data@,
                )[i] != ':',
    {
        let encoded = base64_encode(ur.cbor_data.as_slice());
        assert forall|i: int| 0 <= i < encoded@.len() implies #[trigger] encoded@[i] != ':' by {
            assert(is_base64_char(encoded@[i]));
        }
        let mut s = ur.ur_type.clone();
        s.append(":");
        s.append(encoded.as_str());
        proof {
            reveal_strlit(":");
            assert(s@ =~= ur.ur_type@ + seq![':'] + encoded@);
        }
        Ok(s)
    }

    /// Decodes a UR from `<type>:<base64 data>`.
    pub fn decode_ur(ur_string: &str) -> (res: Result<UR, URProtocolError>)
        ensures
            spec_decode_ur(ur_string@, res),
            forall|t: Seq<char>, b: Seq<u8>|
                #![trigger t + seq![':'] + spec_base64_encode(b)]
                (forall|i: int| 0 <= i < t.len() ==> t[i] != ':') && (forall|i: int|
                    0 <= i < spec_base64_encode(b).len() ==> spec_base64_encode(b)[i] != ':')
                    && ur_string@ == t + seq![':'] + spec_base64_encode(b) ==> (res matches Ok(u)
                    && u.ur_type@ == t && u.cbor_data@ == b),
    {
        let chars = chars_of(ur_string);
        let parts = split_chars(&chars, ':');
        proof {
            assert forall|t: Seq<char>, b: Seq<u8>|
                #![trigger t + seq![':'] + spec_base64_encode(b)]
                (forall|i: int| 0 <= i < t.len() ==> t[i] != ':') && (forall|i: int|
                    0 <= i < spec_base64_encode(b).len() ==> spec_base64_encode(b)[i] != ':')
                    && ur_string@ == t + seq![':'] + spec_base64_encode(b) implies parts@.len() == 2
                && parts@[1]@ == spec_base64_encode(b) && parts@[0]@ == t by {
                lemma_split_at_single_sep(t, spec_base64_encode(b), ':');
                let views = parts@.map_values(|x: Vec<char>| x@);
                assert(views == spec_split(chars@, ':'));
                assert(views == seq![t, spec_base64_encode(b)]);
                assert(views.len() == parts@.len());
                assert(views[1] == parts@[1]@);
                assert(views[0] == parts@[0]@);
            }
        }
        if parts.len() != 2 {
            return Err(URProtocolError::InvalidURFormat(String::from_str("Invalid UR string format")));
        }
        let ur_type = string_of(&parts[0]);
        let encoded = string_of(&parts[1]);
        let decoded = base64_decode(encoded.as_str());
        match decoded {
            Ok(cbor_data) => Ok(UR { ur_type, cbor_data }),
            Err(e) => {
                let mut m = String::from_str("Invalid base64: ");
                m.append(e.as_str());
                Err(URProtocolError::InvalidURFormat(m))
            },
        }
    }

    /// Accepts the UR types this protocol knows.
    pub fn validate_ur(ur: &UR) -> (res: Result<(), URProtocolError>)
        ensures
            spec_is_known_ur_type(ur.ur_type@) ==> res is Ok,
            !spec_is_known_ur_type(ur.ur_type@) ==> (res matches Err(
                URProtocolError::UnsupportedURType(t),
            ) && t@ == ur.ur_type@),
    {
        let t = chars_of(ur.ur_type.as_str());
        if chars_eq_str(&t, "crypto-sign-request") || chars_eq_str(&t, "crypto-signature")
            || chars_eq_str(&t, "crypto-pubkey") || chars_eq_str(&t, "crypto-account")
            || chars_eq_str(&t, "crypto-transaction") || chars_eq_str(&t, "crypto-request") {
            Ok(())
        } else {
            Err(URProtocolError::UnsupportedURType(ur.ur_type.clone()))
        }
    }
}

/// Whether `r` is what reading a public key from `ur` gives.
pub open spec fn spec_parse_pubkey_response(ur: &UR, r: Result<Pubkey, URProtocolError>) -> bool {
    let t = ur.ur_type@;
    let data = ur.cbor_data@;
    if t != "crypto-pubkey"@ && t != "crypto-account"@ {
        r matches Err(URProtocolError::UnsupportedURType(m)) && m@ == t
    } else if valid_utf8(data) && spec_json_str_field(decode_utf8(data), "pubkey"@) is Some
        && spec_json_str_field(decode_utf8(data), "pubkey"@)->0 is Some {
        match spec_pubkey_from_str(spec_json_str_field(decode_utf8(data), "pubkey"@)->0->0) {
            Ok(b) => r matches Ok(k) && k.bytes@ == b,
            Err(e) => r matches Err(URProtocolError::InvalidURFormat(m)) && m@ == "Invalid pubkey: "@
                + e.spec_message(),
        }
    } else {
        match spec_cbor_decode_bytes(data) {
            Err(e) => r matches Err(URProtocolError::DeserializationError(m)) && m@ == e,
            Ok(b) => if b.len() != 32 {
                r matches Err(URProtocolError::InvalidURFormat(m)) && m@ == "Invalid pubkey length"@
            } else {
                r matches Ok(k) && k.bytes@ == b
            },
        }
    }
}

/// A public key response is read from its JSON form first, whichever of the
/// two accepted types it has: a UTF-8 JSON document whose `pubkey` field is a
/// valid base58 key gives that key, and an invalid one is refused as a bad
/// key, whatever the data would give read as CBOR.
pub proof fn lemma_pubkey_json_first(ur: &UR, p: Seq<char>, r: Result<Pubkey, URProtocolError>)
    requires
        ur.ur_type@ == "crypto-pubkey"@ || ur.ur_type@ == "crypto-account"@,
        valid_utf8(ur.cbor_data@),
        spec_json_str_field(decode_utf8(ur.cbor_data@), "pubkey"@) == Some(Some(p)),
        spec_parse_pubkey_response(ur, r),
    ensures
        spec_pubkey_from_str(p) is Ok ==> (r matches Ok(k) && k.bytes@
            == spec_pubkey_from_str(p)->Ok_0),
        spec_pubkey_from_str(p) is Err ==> (r matches Err(URProtocolError::InvalidURFormat(m))
            && m@ == "Invalid pubkey: "@ + spec_pubkey_from_str(p)->Err_0.spec_message()),
{
}

/// The two accepted types read the same data alike: the result does not
/// depend on which of them a response has.
pub proof fn lemma_pubkey_types_agree(
    a: &UR,
    b: &UR,
    ra: Result<Pubkey, URProtocolError>,
    rb: Result<Pubkey, URProtocolError>,
)
    requires
        a.ur_type@ == "crypto-pubkey"@,
        b.ur_type@ == "crypto-account"@,
        a.cbor_data@ == b.cbor_data@,
        spec_parse_pubkey_response(a, ra),
        spec_parse_pubkey_response(b, rb),
    ensures
        ra is Ok <==> rb is Ok,
        ra is Ok ==> ra->Ok_0.bytes@ == rb->Ok_0.bytes@,
{
}

/// Once reading the pieces fails, reading more pieces fails the same way.
proof fn lemma_components_error_persists(s: Seq<Seq<char>>, t: Seq<Seq<char>>)
    requires
        spec_components(s) is Err,
    ensures
        spec_components(s + t) == spec_components(s),
    decreases t.len(),
{
    if t.len() > 0 {
        lemma_components_error_persists(s, t.drop_last());
        assert((s + t).drop_last() =~= s + t.drop_last());
    } else {
        assert(s + t =~= s);
    }
}

/// A text made of a type and a payload, neither holding `:`, joined by `:`,
/// decodes to that type and to what base64 decoding makes of the payload.
pub proof fn lemma_decode_ur_parts(t: Seq<char>, p: Seq<char>, r: Result<UR, URProtocolError>)
    requires
        forall|i: int| 0 <= i < t.len() ==> t[i] != ':',
        forall|i: int| 0 <= i < p.len() ==> p[i] != ':',
        spec_decode_ur(t + seq![':'] + p, r),
    ensures
        match spec_base64_decode(p) {
            Ok(b) => r matches Ok(u) && u.ur_type@ == t && u.cbor_data@ == b,
            Err(_) => r matches Err(URProtocolError::InvalidURFormat(_)),
        },
{
    lemma_split_at_single_sep(t, p, ':');
}

/// A UR whose type holds no `:` is decoded from its text form back to
/// itself, when the base64 text of its data is made of the base64 alphabet
/// (as `encode_ur` ensures) and decodes back to the data.
pub proof fn lemma_ur_text_roundtrip(ur: UR, r: Result<UR, URProtocolError>)
    requires
        forall|i: int| 0 <= i < ur.ur_type@.len() ==> ur.ur_type@[i] != ':',
        forall|i: int|
            0 <= i < spec_base64_encode(ur.cbor_data@).len() ==> is_base64_char(
                #[trigger] spec_base64_encode(ur.cbor_data@)[i],
            ),
        spec_base64_decode(spec_base64_encode(ur.cbor_data@)) == Ok::<Seq<u8>, Seq<char>>(
            ur.cbor_data@,
        ),
        spec_decode_ur(spec_encode_ur(ur), r),
    ensures
        r matches Ok(u) && u.ur_type@ == ur.ur_type@ && u.cbor_data@ == ur.cbor_data@,
{
    let p = spec_base64_encode(ur.cbor_data@);
    assert forall|i: int| 0 <= i < p.len() implies p[i] != ':' by {
        assert(is_base64_char(p[i]));
    }
    lemma_decode_ur_parts(ur.ur_type@, p, r);
}

/// The text of one component: its index, then `'` when hardened.
pub open spec fn spec_piece_text(c: KeypathComponent) -> Seq<char> {
    if c.hardened {
        spec_decimal(c.index as nat).push('\'')
    } else {
        spec_decimal(c.index as nat)
    }
}

proof fn lemma_piece_reads_back(c: KeypathComponent)
    ensures
        spec_piece_text(c).len() >= 1,
        spec_piece_text(c)[0] != 'm',
        forall|i: int| 0 <= i < spec_piece_text(c).len() ==> #[trigger] spec_piece_text(c)[i] != '/',
        !spec_is_root_piece(spec_piece_text(c)),
        spec_component_of(spec_piece_text(c)) == Ok::<KeypathComponent, Seq<char>>(c),
{
    let d = spec_decimal(c.index as nat);
    let p = spec_piece_text(c);
    lemma_decimal_digits(c.index as nat);
    lemma_parse_decimal(c.index as nat, 0xffff_ffff);
    assert(is_digit(d[0]));
    assert forall|i: int| 0 <= i < p.len() implies #[trigger] p[i] != '/' by {
        if i < d.len() {
            assert(p[i] == d[i]);
            assert(is_digit(d[i]));
        }
    }
    assert(p[0] == d[0]);
    if !c.hardened {
        assert(is_digit(d[d.len() - 1]));
        assert(p.last() != '\'');
    } else {
        assert(p.drop_last() =~= d);
    }
    assert(p != "m"@) by {
        reveal_strlit("m");
        if p == "m"@ {
            assert(p[0] == 'm');
        }
    }
}

/// The text of a key path, written as the key path reader writes it, reads
/// back as the same components.
pub proof fn lemma_keypath_text_reads_back(cs: Seq<KeypathComponent>)
    ensures
        spec_parse_derivation_path(spec_keypath_text(cs)) == Ok::<Seq<KeypathComponent>, Seq<char>>(cs),
    decreases cs.len(),
{
    if cs.len() == 0 {
        assert(cs =~= Seq::<KeypathComponent>::empty());
    } else {
        let last = cs.last();
        let piece = spec_piece_text(last);
        lemma_piece_reads_back(last);
        assert(spec_keypath_text(cs) == if cs.len() == 1 {
            piece
        } else {
            spec_keypath_text(cs.drop_last()) + seq!['/'] + piece
        });
        if cs.len() == 1 {
            lemma_split_no_sep(piece, '/');
            let pieces = seq![piece];
            assert(pieces.drop_last() =~= Seq::<Seq<char>>::empty());
            assert(pieces.last() == piece);
            assert(spec_components(pieces.drop_last()) == Ok::<Seq<KeypathComponent>, Seq<char>>(
                Seq::empty(),
            ));
            assert(spec_components(pieces) == Ok::<Seq<KeypathComponent>, Seq<char>>(
                Seq::<KeypathComponent>::empty().push(last),
            ));
            assert(cs =~= seq![last]);
            assert(Seq::<KeypathComponent>::empty().push(last) =~= cs);
            assert(spec_keypath_text(cs) == piece);
            assert(spec_parse_derivation_path(piece) == spec_components(pieces));
        } else {
            let dl = cs.drop_last();
            let prefix = spec_keypath_text(dl);
            lemma_keypath_text_reads_back(dl);
            lemma_keypath_text_nonempty(dl);
            lemma_split_append(prefix, piece, '/');
            let pieces = spec_split(prefix, '/').push(piece);
            assert(spec_parse_derivation_path(prefix) == spec_components(spec_split(prefix, '/')));
            assert(spec_components(spec_split(prefix, '/')) == Ok::<Seq<KeypathComponent>, Seq<char>>(dl));
            assert(pieces.drop_last() =~= spec_split(prefix, '/'));
            assert(pieces.last() == piece);
            assert(spec_components(pieces) == Ok::<Seq<KeypathComponent>, Seq<char>>(dl.push(last)));
            assert(dl.push(last) =~= cs);
            let text = prefix + seq!['/'] + piece;
            assert(spec_keypath_text(cs) == text);
            assert(text.len() > 0);
            assert(spec_parse_derivation_path(text) == spec_components(spec_split(text, '/')));
        }
    }
}

proof fn lemma_keypath_text_nonempty(cs: Seq<KeypathComponent>)
    requires
        cs.len() > 0,
    ensures
        spec_keypath_text(cs).len() > 0,
{
    lemma_piece_reads_back(cs.last());
}

/// Splitting `a:b` at `:`, where neither part holds `:`, gives `a` and `b`.
proof fn lemma_split_at_single_sep(a: Seq<char>, b: Seq<char>, sep: char)
    requires
        forall|i: int| 0 <= i < a.len() ==> a[i] != sep,
        forall|i: int| 0 <= i < b.len() ==> b[i] != sep,
    ensures
        spec_split(a + seq![sep] + b, sep) == seq![a, b],
    decreases b.len(),
{
    let s = a + seq![sep] + b;
    if b.len() == 0 {
        lemma_split_no_sep(a, sep);
        assert(s.drop_last() =~= a);
        assert(s.last() == sep);
        assert(b =~= Seq::<char>::empty());
        assert(seq![a].push(Seq::<char>::empty()) =~= seq![a, b]);
    } else {
        lemma_split_at_single_sep(a, b.drop_last(), sep);
        assert(s.drop_last() =~= a + seq![sep] + b.drop_last());
        assert(b[b.len() - 1] != sep);
        assert(s.last() == b.last());
        assert(b.drop_last().push(b.last()) =~= b);
        let prev = seq![a, b.drop_last()];
        assert(prev.update(1, prev.last().push(s.last())) =~= seq![a, b]);
    }
}


/// An empty piece between the pieces of a path changes nothing.
proof fn lemma_components_skip_empty(p: Seq<Seq<char>>, q: Seq<Seq<char>>)
    ensures
        spec_components(p + seq![Seq::<char>::empty()] + q) == spec_components(p + q),
    decreases q.len(),
{
    if q.len() == 0 {
        assert(p + seq![Seq::<char>::empty()] + q =~= p.push(Seq::<char>::empty()));
        assert(p.push(Seq::<char>::empty()).drop_last() =~= p);
        assert(p + q =~= p);
    } else {
        lemma_components_skip_empty(p, q.drop_last());
        assert((p + seq![Seq::<char>::empty()] + q).drop_last() =~= p + seq![Seq::<char>::empty()]
            + q.drop_last());
        assert((p + q).drop_last() =~= p + q.drop_last());
        assert((p + seq![Seq::<char>::empty()] + q).last() == q.last());
        assert((p + q).last() == q.last());
    }
}

/// Two empty pieces give no components.
proof fn lemma_components_two_empty()
    ensures
        spec_components(seq![Seq::<char>::empty(), Seq::<char>::empty()]) == Ok::<
            Seq<KeypathComponent>,
            Seq<char>,
        >(Seq::empty()),
{
    let e = Seq::<char>::empty();
    assert(seq![e, e].drop_last() =~= seq![e]);
    assert(seq![e].drop_last() =~= Seq::<Seq<char>>::empty());
    assert(spec_components(Seq::<Seq<char>>::empty()) == Ok::<Seq<KeypathComponent>, Seq<char>>(
        Seq::empty(),
    ));
    assert(seq![e].last() == e);
    assert(spec_is_root_piece(e));
    assert(spec_components(seq![e]) == Ok::<Seq<KeypathComponent>, Seq<char>>(Seq::empty()));
    assert(seq![e, e].last() == e);
}

/// Empty segments of a path are skipped: a leading `/`, a trailing `/`, or
/// a doubled `/` gives the same components.
pub proof fn lemma_empty_segments_skipped(a: Seq<char>, b: Seq<char>)
    ensures
        spec_parse_derivation_path(seq!['/'] + a) == spec_parse_derivation_path(a),
        spec_parse_derivation_path(a + seq!['/']) == spec_parse_derivation_path(a),
        spec_parse_derivation_path(a + seq!['/', '/'] + b) == spec_parse_derivation_path(
            a + seq!['/'] + b,
        ),
{
    let e = Seq::<char>::empty();
    let none = Seq::<Seq<char>>::empty();
    assert(spec_split(e, '/') == seq![e]);
    // Leading.
    lemma_split_concat(e, a, '/');
    assert(e + seq!['/'] + a =~= seq!['/'] + a);
    assert((seq!['/'] + a).len() > 0);
    if a.len() == 0 {
        assert(seq![e] + spec_split(a, '/') =~= seq![e, e]);
        lemma_components_two_empty();
    } else {
        lemma_components_skip_empty(none, spec_split(a, '/'));
        assert(none + seq![e] + spec_split(a, '/') =~= seq![e] + spec_split(a, '/'));
        assert(none + spec_split(a, '/') =~= spec_split(a, '/'));
    }
    assert(spec_parse_derivation_path(seq!['/'] + a) == spec_parse_derivation_path(a));
    // Trailing.
    lemma_split_concat(a, e, '/');
    assert(a + seq!['/'] + e =~= a + seq!['/']);
    assert((a + seq!['/']).len() > 0);
    if a.len() == 0 {
        assert(spec_split(a, '/') + seq![e] =~= seq![e, e]);
        lemma_components_two_empty();
    } else {
        lemma_components_skip_empty(spec_split(a, '/'), none);
        assert(spec_split(a, '/') + seq![e] + none =~= spec_split(a, '/') + seq![e]);
        assert(spec_split(a, '/') + none =~= spec_split(a, '/'));
    }
    assert(spec_parse_derivation_path(a + seq!['/']) == spec_parse_derivation_path(a));
    // Doubled.
    lemma_split_concat(a, seq!['/'] + b, '/');
    lemma_split_concat(e, b, '/');
    assert(e + seq!['/'] + b =~= seq!['/'] + b);
    assert(a + seq!['/'] + (seq!['/'] + b) =~= a + seq!['/', '/'] + b);
    lemma_split_concat(a, b, '/');
    lemma_components_skip_empty(spec_split(a, '/'), spec_split(b, '/'));
    assert(spec_split(a, '/') + (seq![e] + spec_split(b, '/')) =~= spec_split(a, '/') + seq![e]
        + spec_split(b, '/'));
}

} // verus!
