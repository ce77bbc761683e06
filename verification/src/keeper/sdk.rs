//! The calls into the Sui SDK: addresses, digests, keys, and the transaction
//! builder. Every function here hands plain values to the SDK and takes plain
//! values back; what each of them claims of the SDK is stated, not proved.

use base64::Engine;
use sui_crypto::SuiSigner;
use vstd::prelude::*;

use crate::text::view_opt;

verus! {

// ---------------------------------------------------------------------------
// Addresses and digests
// ---------------------------------------------------------------------------

pub open spec fn is_hex(c: char) -> bool {
    '0' <= c <= '9' || 'a' <= c <= 'f' || 'A' <= c <= 'F'
}

pub open spec fn hex_value(c: char) -> int {
    if '0' <= c <= '9' {
        c as int - '0' as int
    } else if 'a' <= c <= 'f' {
        c as int - 'a' as int + 10
    } else {
        c as int - 'A' as int + 10
    }
}

/// The lower-case digit of a value below sixteen.
pub open spec fn hex_char(d: int) -> char {
    if d < 10 {
        ('0' as int + d) as char
    } else {
        ('a' as int + d - 10) as char
    }
}

/// What follows a leading `0x`; the whole text if there is none.
pub open spec fn hex_body(s: Seq<char>) -> Seq<char> {
    if s.len() >= 2 && s[0] == '0' && s[1] == 'x' {
        s.skip(2)
    } else {
        s
    }
}

/// The value of the digit at place `k`, counted from the right; 0 past the left end.
pub open spec fn nibble(body: Seq<char>, k: int) -> int {
    if 0 <= k < body.len() {
        hex_value(body[body.len() - 1 - k])
    } else {
        0
    }
}

/// The 32 bytes of an address: one to 64 hexadecimal digits, read as a number
/// with the most significant byte first, after an optional `0x`.
pub open spec fn address(s: Seq<char>) -> Option<Seq<u8>> {
    let body = hex_body(s);
    if 1 <= body.len() <= 64 && forall|i: int| 0 <= i < body.len() ==> is_hex(#[trigger] body[i]) {
        Some(
            Seq::new(
                32,
                |j: int| (16 * nibble(body, 2 * (31 - j) + 1) + nibble(body, 2 * (31 - j))) as u8,
            ),
        )
    } else {
        None
    }
}

/// `sui_sdk_types::Address::from_str`: the bytes of an address, or `None` where
/// it reports an error.
#[verifier::external_body]
pub(crate) fn parse_address(s: &str) -> (r: Option<[u8; 32]>)
    ensures
        view_opt(r) == address(s@),
{
    match s.parse::<sui_sdk_types::Address>() {
        Ok(a) => Some(a.into_inner()),
        Err(_) => None,
    }
}

/// An address in text: `0x` and two lower-case digits for each byte.
pub open spec fn address_digits(bytes: Seq<u8>) -> Seq<char> {
    seq!['0', 'x'] + Seq::new(
        2 * bytes.len(),
        |i: int|
            hex_char(
                if i % 2 == 0 {
                    bytes[i / 2] as int / 16
                } else {
                    bytes[i / 2] as int % 16
                },
            ),
    )
}

/// `sui_sdk_types::Address` as its `Display` writes it.
#[verifier::external_body]
pub(crate) fn address_text(bytes: &[u8; 32]) -> (r: String)
    ensures
        r@ == address_digits(bytes@),
{
    sui_sdk_types::Address::new(*bytes).to_string()
}

/// What `sui_sdk_types::Digest::from_str` reads from a text: the 32 bytes of a
/// Base58 string, or nothing.
pub uninterp spec fn digest(s: Seq<char>) -> Option<Seq<u8>>;

/// `sui_sdk_types::Digest::from_str`; `None` where it reports an error.
#[verifier::external_body]
pub(crate) fn parse_digest(s: &str) -> (r: Option<[u8; 32]>)
    ensures
        view_opt(r) == digest(s@),
{
    match s.parse::<sui_sdk_types::Digest>() {
        Ok(d) => Some(d.into_inner()),
        Err(_) => None,
    }
}

// ---------------------------------------------------------------------------
// Keys
// ---------------------------------------------------------------------------

/// What `bech32` makes of a text: the human-readable part in lower case and the
/// data bytes, or the text of its error.
pub uninterp spec fn bech32(s: Seq<char>) -> Result<(Seq<char>, Seq<u8>), Seq<char>>;

/// Both sides of a decoded text, in the model.
pub open spec fn bech32_view(r: Result<(String, Vec<u8>), String>) -> Result<
    (Seq<char>, Seq<u8>),
    Seq<char>,
> {
    match r {
        Ok((hrp, data)) => Ok((hrp@, data@)),
        Err(e) => Err(e@),
    }
}

/// `bech32::primitives::decode::CheckedHrpstring::new` with the checksum of
/// BIP-173: human-readable part, in lower case, and data.
#[verifier::external_body]
pub(crate) fn decode_bech32(s: &str) -> (r: Result<(String, Vec<u8>), String>)
    ensures
        bech32_view(r) == bech32(s@),
{
    match bech32::primitives::decode::CheckedHrpstring::new::<bech32::Bech32>(s) {
        Ok(p) => Ok((p.hrp().to_lowercase(), p.byte_iter().collect())),
        Err(e) => Err(e.to_string()),
    }
}

/// The Ed25519 public key of a private key.
pub uninterp spec fn ed25519_public_key(key: Seq<u8>) -> Seq<u8>;

/// `sui_crypto::ed25519::Ed25519PrivateKey::public_key`.
#[verifier::external_body]
pub(crate) fn public_key(key: &[u8; 32]) -> (r: [u8; 32])
    ensures
        r@ == ed25519_public_key(key@),
{
    sui_crypto::ed25519::Ed25519PrivateKey::new(*key).public_key().into_inner()
}

/// The address that belongs to an Ed25519 public key.
pub uninterp spec fn ed25519_address(public_key: Seq<u8>) -> Seq<u8>;

/// `sui_sdk_types::Ed25519PublicKey::derive_address`.
#[verifier::external_body]
pub(crate) fn derive_address(public_key: &[u8; 32]) -> (r: [u8; 32])
    ensures
        r@ == ed25519_address(public_key@),
{
    sui_sdk_types::Ed25519PublicKey::new(*public_key).derive_address().into_inner()
}

// ---------------------------------------------------------------------------
// Transactions
// ---------------------------------------------------------------------------

/// `sui_transaction_builder::TransactionBuilder`, seen only through what it holds.
#[verifier::external_type_specification]
#[verifier::external_body]
pub struct ExTransactionBuilder(sui_transaction_builder::TransactionBuilder);

/// `sui_transaction_builder::Argument`, the handle of an input.
#[verifier::external_type_specification]
#[verifier::external_body]
pub struct ExArgument(sui_transaction_builder::Argument);

/// `sui_sdk_types::Transaction`, seen only through what it consists of.
#[verifier::external_type_specification]
#[verifier::external_body]
pub struct ExTransaction(sui_sdk_types::Transaction);

/// An input of a transaction.
#[verifier::ext_equal]
pub enum TxInput {
    /// A value, in BCS.
    Pure(Seq<u8>),
    Shared { id: Seq<u8>, version: u64, mutable: bool },
    Owned { id: Seq<u8>, version: u64, digest: Seq<u8> },
}

/// A call of a Move function on inputs, which are given by their position.
#[verifier::ext_equal]
pub struct MoveCall {
    pub package: Seq<u8>,
    pub module: Seq<char>,
    pub function: Seq<char>,
    pub args: Seq<int>,
}

/// A coin that pays for gas.
#[verifier::ext_equal]
pub struct GasObject {
    pub id: Seq<u8>,
    pub version: u64,
    pub digest: Seq<u8>,
}

/// A transaction of at most one call, complete or not.
#[verifier::ext_equal]
pub struct Draft {
    pub inputs: Seq<TxInput>,
    pub call: Option<MoveCall>,
    pub gas: Seq<GasObject>,
    pub budget: Option<u64>,
    pub price: Option<u64>,
    pub sender: Option<Seq<u8>>,
}

pub open spec fn empty_draft() -> Draft {
    Draft {
        inputs: seq![],
        call: None,
        gas: seq![],
        budget: None,
        price: None,
        sender: None,
    }
}

/// What a builder holds, as far as it shows in the transaction.
pub uninterp spec fn builder_contents(b: sui_transaction_builder::TransactionBuilder) -> Draft;

/// The position of the input that an argument stands for.
pub uninterp spec fn argument_position(a: sui_transaction_builder::Argument) -> int;

/// What a built transaction consists of.
pub uninterp spec fn transaction_contents(t: sui_sdk_types::Transaction) -> Draft;

/// `TransactionBuilder::new`: nothing in it.
#[verifier::external_body]
pub(crate) fn new_builder() -> (r: sui_transaction_builder::TransactionBuilder)
    ensures
        builder_contents(r) == empty_draft(),
{
    sui_transaction_builder::TransactionBuilder::new()
}

/// The object that an input names.
pub open spec fn object_id(i: TxInput) -> Option<Seq<u8>> {
    match i {
        TxInput::Pure(_) => None,
        TxInput::Shared { id, .. } => Some(id),
        TxInput::Owned { id, .. } => Some(id),
    }
}

/// Whether two inputs are one: the same object, or the same bytes.
pub open spec fn same_input(a: TxInput, b: TxInput) -> bool {
    match (a, b) {
        (TxInput::Pure(x), TxInput::Pure(y)) => x == y,
        _ => object_id(a) is Some && object_id(a) == object_id(b),
    }
}

/// The position of the input that is one with `i`; the end if there is none.
pub open spec fn position(inputs: Seq<TxInput>, i: TxInput) -> int
    decreases inputs.len(),
{
    if inputs.len() == 0 {
        0
    } else if position(inputs.drop_last(), i) < inputs.len() - 1 {
        position(inputs.drop_last(), i)
    } else if same_input(inputs.last(), i) {
        inputs.len() - 1
    } else {
        inputs.len() as int
    }
}

/// Two mentions of one object. The first decides on kind and version; a shared
/// object is mutable if either mention has it so.
pub open spec fn merged(first: TxInput, second: TxInput) -> TxInput {
    match (first, second) {
        (
            TxInput::Shared { id, version, mutable },
            TxInput::Shared { mutable: also, .. },
        ) => TxInput::Shared { id, version, mutable: mutable || also },
        _ => first,
    }
}

/// The inputs with one more: at the end if it is new, merged otherwise.
pub open spec fn with_input(inputs: Seq<TxInput>, i: TxInput) -> Seq<TxInput> {
    let at = position(inputs, i);
    if at < inputs.len() {
        inputs.update(at, merged(inputs[at], i))
    } else {
        inputs.push(i)
    }
}

/// A draft with one more input.
pub open spec fn with_input_in(d: Draft, i: TxInput) -> Draft {
    Draft { inputs: with_input(d.inputs, i), ..d }
}

/// `TransactionBuilder::object` of an `ObjectInput::shared`, before any command.
#[verifier::external_body]
pub(crate) fn add_shared(
    b: &mut sui_transaction_builder::TransactionBuilder,
    id: &[u8; 32],
    version: u64,
    mutable: bool,
) -> (r: sui_transaction_builder::Argument)
    requires
        builder_contents(*old(b)).call is None,
    ensures
        builder_contents(*final(b)) == with_input_in(
            builder_contents(*old(b)),
            (TxInput::Shared { id: id@, version, mutable }),
        ),
        argument_position(r) == position(
            builder_contents(*old(b)).inputs,
            (TxInput::Shared { id: id@, version, mutable }),
        ),
{
    b.object(
        sui_transaction_builder::ObjectInput::shared(
            sui_sdk_types::Address::new(*id),
            version,
            mutable,
        ),
    )
}

/// `TransactionBuilder::object` of an `ObjectInput::owned`, before any command.
#[verifier::external_body]
pub(crate) fn add_owned(
    b: &mut sui_transaction_builder::TransactionBuilder,
    id: &[u8; 32],
    version: u64,
    digest: &[u8; 32],
) -> (r: sui_transaction_builder::Argument)
    requires
        builder_contents(*old(b)).call is None,
    ensures
        builder_contents(*final(b)) == with_input_in(
            builder_contents(*old(b)),
            (TxInput::Owned { id: id@, version, digest: digest@ }),
        ),
        argument_position(r) == position(
            builder_contents(*old(b)).inputs,
            (TxInput::Owned { id: id@, version, digest: digest@ }),
        ),
{
    b.object(
        sui_transaction_builder::ObjectInput::owned(
            sui_sdk_types::Address::new(*id),
            version,
            sui_sdk_types::Digest::new(*digest),
        ),
    )
}

/// The lowest `n` bytes of a number, least significant first.
pub open spec fn le_bytes(v: nat, n: nat) -> Seq<u8>
    decreases n,
{
    if n == 0 {
        seq![]
    } else {
        seq![(v % 256) as u8] + le_bytes(v / 256, (n - 1) as nat)
    }
}

/// A length in BCS: seven bits to a byte, least significant first, the top bit
/// set on all but the last.
pub open spec fn uleb128(v: nat) -> Seq<u8>
    decreases v,
{
    if v < 128 {
        seq![v as u8]
    } else {
        seq![(128 + v % 128) as u8] + uleb128(v / 128)
    }
}

pub open spec fn bcs_u64(v: u64) -> Seq<u8> {
    le_bytes(v as nat, 8)
}

/// The elements of a vector, one after the other.
pub open spec fn flat(items: Seq<Seq<u8>>) -> Seq<u8>
    decreases items.len(),
{
    if items.len() == 0 {
        seq![]
    } else {
        flat(items.drop_last()) + items.last()
    }
}

/// A vector in BCS: its length and its elements.
pub open spec fn bcs_vector(items: Seq<Seq<u8>>) -> Seq<u8> {
    uleb128(items.len()) + flat(items)
}

pub open spec fn bcs_u64_vector(v: Seq<u64>) -> Seq<u8> {
    bcs_vector(Seq::new(v.len(), |i: int| bcs_u64(v[i])))
}

/// `TransactionBuilder::pure` of a `u64`, before any command.
#[verifier::external_body]
pub(crate) fn add_u64(
    b: &mut sui_transaction_builder::TransactionBuilder,
    value: u64,
) -> (r: sui_transaction_builder::Argument)
    requires
        builder_contents(*old(b)).call is None,
    ensures
        builder_contents(*final(b)) == with_input_in(
            builder_contents(*old(b)),
            TxInput::Pure(bcs_u64(value)),
        ),
        argument_position(r) == position(
            builder_contents(*old(b)).inputs,
            TxInput::Pure(bcs_u64(value)),
        ),
{
    b.pure(&value)
}

/// `TransactionBuilder::pure` of a `Vec<u64>`, before any command. A sequence in
/// BCS has at most `i32::MAX` elements.
#[verifier::external_body]
pub(crate) fn add_u64_vec(
    b: &mut sui_transaction_builder::TransactionBuilder,
    values: &Vec<u64>,
) -> (r: sui_transaction_builder::Argument)
    requires
        builder_contents(*old(b)).call is None,
        values@.len() <= i32::MAX,
    ensures
        builder_contents(*final(b)) == with_input_in(
            builder_contents(*old(b)),
            TxInput::Pure(bcs_u64_vector(values@)),
        ),
        argument_position(r) == position(
            builder_contents(*old(b)).inputs,
            TxInput::Pure(bcs_u64_vector(values@)),
        ),
{
    b.pure(values)
}

/// `TransactionBuilder::pure` of a vector of 32-byte arrays, before any command.
/// A sequence in BCS has at most `i32::MAX` elements.
#[verifier::external_body]
pub(crate) fn add_bytes32_vec(
    b: &mut sui_transaction_builder::TransactionBuilder,
    values: &Vec<[u8; 32]>,
) -> (r: sui_transaction_builder::Argument)
    requires
        builder_contents(*old(b)).call is None,
        values@.len() <= i32::MAX,
    ensures
        builder_contents(*final(b)) == with_input_in(
            builder_contents(*old(b)),
            TxInput::Pure(bcs_vector(crate::text::view_all(values@))),
        ),
        argument_position(r) == position(
            builder_contents(*old(b)).inputs,
            TxInput::Pure(bcs_vector(crate::text::view_all(values@))),
        ),
{
    b.pure(values)
}

pub open spec fn is_letter(c: char) -> bool {
    'a' <= c <= 'z' || 'A' <= c <= 'Z'
}

/// A Move identifier: at most 128 letters, digits and underscores; it starts
/// with a letter, or with an underscore that is not all of it.
pub open spec fn identifier(s: Seq<char>) -> bool {
    &&& 1 <= s.len() <= 128
    &&& is_letter(s[0]) || (s[0] == '_' && s.len() > 1)
    &&& forall|i: int|
        0 <= i < s.len() ==> is_letter(#[trigger] s[i]) || '0' <= s[i] <= '9' || s[i] == '_'
}

/// Whether `sui_sdk_types::Identifier::new` takes a text.
#[verifier::external_body]
pub(crate) fn is_identifier(s: &str) -> (r: bool)
    ensures
        r == identifier(s@),
{
    sui_sdk_types::Identifier::new(s).is_ok()
}

/// The positions that arguments stand for.
pub open spec fn positions(args: Seq<sui_transaction_builder::Argument>) -> Seq<int> {
    Seq::new(args.len(), |i: int| argument_position(args[i]))
}

/// `TransactionBuilder::move_call` of a function without type arguments, as the
/// first command.
#[verifier::external_body]
pub(crate) fn move_call(
    b: &mut sui_transaction_builder::TransactionBuilder,
    package: &[u8; 32],
    module: &str,
    function: &str,
    args: &Vec<sui_transaction_builder::Argument>,
)
    requires
        builder_contents(*old(b)).call is None,
        identifier(module@),
        identifier(function@),
        forall|i: int|
            0 <= i < args@.len() ==> 0 <= #[trigger] positions(args@)[i] < builder_contents(
                *old(b),
            ).inputs.len(),
    ensures
        builder_contents(*final(b)) == (Draft {
            call: Some(
                MoveCall {
                    package: package@,
                    module: module@,
                    function: function@,
                    args: positions(args@),
                },
            ),
            ..builder_contents(*old(b))
        }),
{
    b.move_call(
        sui_transaction_builder::Function::new(
            sui_sdk_types::Address::new(*package),
            sui_sdk_types::Identifier::new(module).unwrap(),
            sui_sdk_types::Identifier::new(function).unwrap(),
        ),
        args.clone(),
    );
}

/// `TransactionBuilder::add_gas_objects` with one `ObjectInput::owned`.
#[verifier::external_body]
pub(crate) fn add_gas_object(
    b: &mut sui_transaction_builder::TransactionBuilder,
    id: &[u8; 32],
    version: u64,
    digest: &[u8; 32],
)
    ensures
        builder_contents(*final(b)) == (Draft {
            gas: builder_contents(*old(b)).gas.push(
                GasObject { id: id@, version, digest: digest@ },
            ),
            ..builder_contents(*old(b))
        }),
{
    b.add_gas_objects(
        [
            sui_transaction_builder::ObjectInput::owned(
                sui_sdk_types::Address::new(*id),
                version,
                sui_sdk_types::Digest::new(*digest),
            ),
        ],
    );
}

/// `TransactionBuilder::set_gas_budget`.
#[verifier::external_body]
pub(crate) fn set_gas_budget(b: &mut sui_transaction_builder::TransactionBuilder, budget: u64)
    ensures
        builder_contents(*final(b)) == (Draft {
            budget: Some(budget),
            ..builder_contents(*old(b))
        }),
{
    b.set_gas_budget(budget);
}

/// `TransactionBuilder::set_gas_price`.
#[verifier::external_body]
pub(crate) fn set_gas_price(b: &mut sui_transaction_builder::TransactionBuilder, price: u64)
    ensures
        builder_contents(*final(b)) == (Draft {
            price: Some(price),
            ..builder_contents(*old(b))
        }),
{
    b.set_gas_price(price);
}

/// `TransactionBuilder::set_sender`.
#[verifier::external_body]
pub(crate) fn set_sender(b: &mut sui_transaction_builder::TransactionBuilder, sender: &[u8; 32])
    ensures
        builder_contents(*final(b)) == (Draft {
            sender: Some(sender@),
            ..builder_contents(*old(b))
        }),
{
    b.set_sender(sui_sdk_types::Address::new(*sender));
}

/// Whether a draft lacks nothing.
pub open spec fn complete(d: Draft) -> bool {
    d.sender is Some && d.gas.len() > 0 && d.budget is Some && d.price is Some
}

/// `TransactionBuilder::try_build`: the transaction that was drafted, or the text
/// of the error if something is missing. What that text says is left open. The
/// inputs are numbered in sixteen bits.
#[verifier::external_body]
pub(crate) fn try_build(b: sui_transaction_builder::TransactionBuilder) -> (r: Result<
    sui_sdk_types::Transaction,
    String,
>)
    requires
        builder_contents(b).inputs.len() < 65536,
    ensures
        r is Ok <==> complete(builder_contents(b)),
        r matches Ok(t) ==> transaction_contents(t) == builder_contents(b),
{
    b.try_build().map_err(|e| e.to_string())
}

/// The BCS bytes of a transaction; nothing if it cannot be encoded.
pub uninterp spec fn transaction_bcs(d: Draft) -> Option<Seq<u8>>;

/// `bcs::to_bytes` of a transaction; `None` where it reports an error.
#[verifier::external_body]
pub(crate) fn transaction_bytes(t: &sui_sdk_types::Transaction) -> (r: Option<Vec<u8>>)
    ensures
        view_opt(r) == transaction_bcs(transaction_contents(*t)),
{
    bcs::to_bytes(t).ok()
}

/// The digit of a value below 64 in the standard alphabet of Base64.
pub open spec fn base64_digit(v: int) -> char {
    if v < 26 {
        ('A' as int + v) as char
    } else if v < 52 {
        ('a' as int + v - 26) as char
    } else if v < 62 {
        ('0' as int + v - 52) as char
    } else if v == 62 {
        '+'
    } else {
        '/'
    }
}

/// A byte, or 0 past the end.
pub open spec fn byte_or_zero(bytes: Seq<u8>, i: int) -> int {
    if i < bytes.len() {
        bytes[i] as int
    } else {
        0
    }
}

/// The standard Base64 text of bytes: four digits for every three bytes, most
/// significant first. Digits that would stand for no byte are written `=`.
pub open spec fn base64_text(bytes: Seq<u8>) -> Seq<char>
    decreases bytes.len(),
{
    if bytes.len() == 0 {
        seq![]
    } else {
        let n = 65536 * bytes[0] + 256 * byte_or_zero(bytes, 1) + byte_or_zero(bytes, 2);
        let four = seq![
            base64_digit(n / 262144),
            base64_digit(n / 4096 % 64),
            if bytes.len() > 1 {
                base64_digit(n / 64 % 64)
            } else {
                '='
            },
            if bytes.len() > 2 {
                base64_digit(n % 64)
            } else {
                '='
            },
        ];
        if bytes.len() <= 3 {
            four
        } else {
            four + base64_text(bytes.skip(3))
        }
    }
}

/// `base64::engine::general_purpose::STANDARD.encode`: the standard alphabet, with
/// padding.
#[verifier::external_body]
pub(crate) fn encode_base64(bytes: &Vec<u8>) -> (r: String)
    ensures
        r@ == base64_text(bytes@),
{
    base64::engine::general_purpose::STANDARD.encode(bytes)
}

/// The signature of a transaction under a private key, in Base64, or the text of
/// the error.
pub uninterp spec fn transaction_signature(key: Seq<u8>, d: Draft) -> Result<
    Seq<char>,
    Seq<char>,
>;

/// `SuiSigner::sign_transaction` with an Ed25519 key, as
/// `sui_sdk_types::UserSignature::to_base64` writes it. A transaction that has no
/// BCS form cannot be signed.
#[verifier::external_body]
pub(crate) fn sign_transaction(key: &[u8; 32], t: &sui_sdk_types::Transaction) -> (r: Result<
    String,
    String,
>)
    requires
        transaction_bcs(transaction_contents(*t)) is Some,
    ensures
        crate::sui::client::view_result(r) == transaction_signature(
            key@,
            transaction_contents(*t),
        ),
{
    match sui_crypto::ed25519::Ed25519PrivateKey::new(*key).sign_transaction(t) {
        Ok(s) => Ok(s.to_base64()),
        Err(e) => Err(e.to_string()),
    }
}

} // verus!
