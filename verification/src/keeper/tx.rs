//! Keeper calls into the pool module: the arguments of a call, the transaction
//! that is built from them, and its signature. Objects, coins and the gas price
//! are fetched by the caller, which the call asks for them.

use vstd::prelude::*;
use vstd::string::*;

use crate::keeper::sdk::{
    add_bytes32_vec, add_gas_object, add_owned, add_shared, add_u64, add_u64_vec, address,
    address_digits, address_text, argument_position, base64_text, bcs_u64, bcs_u64_vector,
    bcs_vector, bech32, bech32_view, builder_contents, decode_bech32, derive_address, digest,
    ed25519_address, ed25519_public_key, empty_draft, encode_base64, hex_body, hex_char, hex_value, identifier,
    flat, is_hex, is_identifier, le_bytes, move_call, new_builder, nibble, parse_address, parse_digest, position, positions,
    public_key, same_input, set_gas_budget, set_gas_price, set_sender, sign_transaction, transaction_bcs,
    transaction_bytes, transaction_signature, try_build, uleb128, with_input_in, Draft,
    GasObject, MoveCall, TxInput,
};
use crate::sui::client::{view_result, GasCoin, GasCoinView};
use crate::sui::types::{ObjectData, ObjectView};
use crate::text::{decimal, join, join3, same, u64_text, view_all, view_opt};

verus! {

/// A tenth of a SUI.
pub const GAS_BUDGET: u64 = 100_000_000;

/// The version at which the clock, the object `0x6`, was shared.
pub const CLOCK_INITIAL_VERSION: u64 = 1;

/// A call has at most so many arguments.
pub const MAX_ARGUMENTS: usize = 65_535;

// ---------------------------------------------------------------------------
// Keys
// ---------------------------------------------------------------------------

/// Why a text is no Ed25519 private key.
#[derive(Debug, PartialEq, Eq)]
pub enum KeyError {
    /// It is not Bech32; the decoder says why.
    Bech32(String),
    WrongPrefix,
    Empty,
    WrongFlag(u8),
    WrongLength(u64),
}

pub enum KeyErrorView {
    Bech32(Seq<char>),
    WrongPrefix,
    Empty,
    WrongFlag(u8),
    WrongLength(int),
}

impl View for KeyError {
    type V = KeyErrorView;

    open spec fn view(&self) -> KeyErrorView {
        match *self {
            KeyError::Bech32(e) => KeyErrorView::Bech32(e@),
            KeyError::WrongPrefix => KeyErrorView::WrongPrefix,
            KeyError::Empty => KeyErrorView::Empty,
            KeyError::WrongFlag(b) => KeyErrorView::WrongFlag(b),
            KeyError::WrongLength(n) => KeyErrorView::WrongLength(n as int),
        }
    }
}

/// A byte in hexadecimal, without leading zeros.
pub open spec fn hex_byte(b: u8) -> Seq<char> {
    if b < 16 {
        "0x"@.push(hex_char(b as int))
    } else {
        "0x"@.push(hex_char(b as int / 16)).push(hex_char(b as int % 16))
    }
}

pub open spec fn key_error_text(e: KeyErrorView) -> Seq<char> {
    match e {
        KeyErrorView::Bech32(e) => "invalid suiprivkey bech32: "@ + e,
        KeyErrorView::WrongPrefix => "expected 'suiprivkey' HRP"@,
        KeyErrorView::Empty => "suiprivkey payload is empty"@,
        KeyErrorView::WrongFlag(b) => "expected Ed25519 flag 0x00, got "@ + hex_byte(b),
        KeyErrorView::WrongLength(n) => "Ed25519 key must be 32 bytes, got "@ + decimal(n),
    }
}

fn hex_digit_text(d: u8) -> (r: &'static str)
    requires
        d < 16,
    ensures
        r@ == seq![hex_char(d as int)],
{
    proof {
        reveal_strlit("0123456789abcdef");
    }
    let i: usize = d as usize;
    let r = "0123456789abcdef".substring_char(i, i + 1);
    assert(r@ =~= seq![hex_char(d as int)]);
    r
}

fn hex_byte_text(b: u8) -> (r: String)
    ensures
        r@ == hex_byte(b),
{
    if b < 16 {
        let r = join("0x", hex_digit_text(b));
        assert(r@ =~= hex_byte(b));
        r
    } else {
        let r = join3("0x", hex_digit_text(b / 16), hex_digit_text(b % 16));
        assert(r@ =~= hex_byte(b));
        r
    }
}

impl KeyError {
    pub fn message(&self) -> (r: String)
        ensures
            r@ == key_error_text(self@),
    {
        match self {
            KeyError::Bech32(e) => join("invalid suiprivkey bech32: ", e.as_str()),
            KeyError::WrongPrefix => "expected 'suiprivkey' HRP".to_owned(),
            KeyError::Empty => "suiprivkey payload is empty".to_owned(),
            KeyError::WrongFlag(b) => join(
                "expected Ed25519 flag 0x00, got ",
                hex_byte_text(*b).as_str(),
            ),
            KeyError::WrongLength(n) => join(
                "Ed25519 key must be 32 bytes, got ",
                u64_text(*n).as_str(),
            ),
        }
    }
}

/// The key in a decoded text: the prefix `suiprivkey`, the flag 0 of Ed25519, and
/// 32 bytes.
pub open spec fn payload_key(decoded: Result<(Seq<char>, Seq<u8>), Seq<char>>) -> Result<
    Seq<u8>,
    KeyErrorView,
> {
    match decoded {
        Err(e) => Err(KeyErrorView::Bech32(e)),
        Ok((prefix, data)) => if prefix != "suiprivkey"@ {
            Err(KeyErrorView::WrongPrefix)
        } else if data.len() == 0 {
            Err(KeyErrorView::Empty)
        } else if data[0] != 0 {
            Err(KeyErrorView::WrongFlag(data[0]))
        } else if data.len() != 33 {
            Err(KeyErrorView::WrongLength(data.len() - 1))
        } else {
            Ok(data.skip(1))
        },
    }
}

/// Takes the key out of a decoded text.
pub fn key_from_payload(decoded: Result<(String, Vec<u8>), String>) -> (r: Result<
    [u8; 32],
    KeyError,
>)
    ensures
        view_result(r) == payload_key(bech32_view(decoded)),
{
    let (prefix, data) = match decoded {
        Err(e) => return Err(KeyError::Bech32(e)),
        Ok(parts) => parts,
    };
    if !same(prefix.as_str(), "suiprivkey") {
        return Err(KeyError::WrongPrefix);
    }
    if data.len() == 0 {
        return Err(KeyError::Empty);
    }
    if data[0] != 0 {
        return Err(KeyError::WrongFlag(data[0]));
    }
    if data.len() != 33 {
        return Err(KeyError::WrongLength((data.len() - 1) as u64));
    }
    let mut key: [u8; 32] = [0u8; 32];
    let mut i: usize = 0;
    while i < 32
        invariant
            i <= 32,
            data@.len() == 33,
            forall|k: int| 0 <= k < i ==> key@[k] == data@[k + 1],
        decreases 32 - i,
    {
        key[i] = data[i + 1];
        i = i + 1;
    }
    assert(key@ =~= data@.skip(1));
    Ok(key)
}

/// Decodes a `suiprivkey1...` text into an Ed25519 private key.
fn decode_suiprivkey(s: &str) -> (r: Result<[u8; 32], KeyError>)
    ensures
        view_result(r) == payload_key(bech32(s@)),
{
    key_from_payload(decode_bech32(s))
}

/// The key that signs keeper calls, and its address.
pub struct KeeperSigner {
    key: [u8; 32],
    pub address: [u8; 32],
}

impl KeeperSigner {
    /// The private key.
    pub closed spec fn key(&self) -> Seq<u8> {
        self.key@
    }

    /// The address.
    pub closed spec fn account(&self) -> Seq<u8> {
        self.address@
    }

    /// The address is the key's own.
    pub open spec fn wf(&self) -> bool {
        self.account() == ed25519_address(ed25519_public_key(self.key()))
    }

    /// The signer of a `suiprivkey1...` text.
    pub fn from_bech32(suiprivkey: &str) -> (r: Result<KeeperSigner, KeyError>)
        ensures
            match r {
                Ok(signer) => signer.wf() && payload_key(bech32(suiprivkey@)) == Ok::<
                    Seq<u8>,
                    KeyErrorView,
                >(signer.key()),
                Err(e) => payload_key(bech32(suiprivkey@)) == Err::<Seq<u8>, KeyErrorView>(e@),
            },
    {
        match decode_suiprivkey(suiprivkey) {
            Ok(key) => {
                let address = derive_address(&public_key(&key));
                Ok(KeeperSigner { key, address })
            },
            Err(e) => Err(e),
        }
    }

    /// The address in text.
    pub fn address_text(&self) -> (r: String)
        ensures
            r@ == address_digits(self.account()),
    {
        address_text(&self.address)
    }
}

// ---------------------------------------------------------------------------
// Arguments
// ---------------------------------------------------------------------------

/// An argument of a call.
#[derive(Debug, PartialEq, Eq)]
pub enum CallArg {
    /// A shared object that the call may change: the pool.
    SharedMut { id: String, initial_version: u64 },
    /// A shared object that the call only reads: the pool configuration.
    SharedRef { id: String, initial_version: u64 },
    /// The clock.
    ClockRef,
    /// The keeper capability, which the keeper owns; fetched afresh for each call.
    OwnedKeeperCap,
    /// A vector of numbers: the oracle results.
    PureU64Vec(Vec<u64>),
    /// A single number.
    PureU64(u64),
    /// A vector of object ids: the oracles.
    PureObjectIdVec(Vec<String>),
}

pub enum CallArgView {
    SharedMut { id: Seq<char>, initial_version: u64 },
    SharedRef { id: Seq<char>, initial_version: u64 },
    ClockRef,
    OwnedKeeperCap,
    PureU64Vec(Seq<u64>),
    PureU64(u64),
    PureObjectIdVec(Seq<Seq<char>>),
}

impl View for CallArg {
    type V = CallArgView;

    open spec fn view(&self) -> CallArgView {
        match *self {
            CallArg::SharedMut { id, initial_version } => CallArgView::SharedMut {
                id: id@,
                initial_version,
            },
            CallArg::SharedRef { id, initial_version } => CallArgView::SharedRef {
                id: id@,
                initial_version,
            },
            CallArg::ClockRef => CallArgView::ClockRef,
            CallArg::OwnedKeeperCap => CallArgView::OwnedKeeperCap,
            CallArg::PureU64Vec(v) => CallArgView::PureU64Vec(v@),
            CallArg::PureU64(n) => CallArgView::PureU64(n),
            CallArg::PureObjectIdVec(ids) => CallArgView::PureObjectIdVec(view_all(ids@)),
        }
    }
}

/// Why no signed transaction comes of a call.
#[derive(Debug, PartialEq, Eq)]
pub enum TxError {
    BadPackageId,
    BadSharedObjectId,
    BadKeeperCapId,
    BadKeeperCapDigest,
    BadOracleId,
    BadFunctionName,
    /// The keeper, at this address, owns no coin to pay with.
    NoGasCoins([u8; 32]),
    BadCoinId,
    BadCoinDigest,
    Build(String),
    Serialize,
    Signing(String),
}

pub enum TxErrorView {
    BadPackageId,
    BadSharedObjectId,
    BadKeeperCapId,
    BadKeeperCapDigest,
    BadOracleId,
    BadFunctionName,
    NoGasCoins(Seq<u8>),
    BadCoinId,
    BadCoinDigest,
    Build(Seq<char>),
    Serialize,
    Signing(Seq<char>),
}

impl View for TxError {
    type V = TxErrorView;

    open spec fn view(&self) -> TxErrorView {
        match *self {
            TxError::BadPackageId => TxErrorView::BadPackageId,
            TxError::BadSharedObjectId => TxErrorView::BadSharedObjectId,
            TxError::BadKeeperCapId => TxErrorView::BadKeeperCapId,
            TxError::BadKeeperCapDigest => TxErrorView::BadKeeperCapDigest,
            TxError::BadOracleId => TxErrorView::BadOracleId,
            TxError::BadFunctionName => TxErrorView::BadFunctionName,
            TxError::NoGasCoins(a) => TxErrorView::NoGasCoins(a@),
            TxError::BadCoinId => TxErrorView::BadCoinId,
            TxError::BadCoinDigest => TxErrorView::BadCoinDigest,
            TxError::Build(e) => TxErrorView::Build(e@),
            TxError::Serialize => TxErrorView::Serialize,
            TxError::Signing(e) => TxErrorView::Signing(e@),
        }
    }
}

pub open spec fn tx_error_text(e: TxErrorView) -> Seq<char> {
    match e {
        TxErrorView::BadPackageId => "bad package id"@,
        TxErrorView::BadSharedObjectId => "bad shared object id"@,
        TxErrorView::BadKeeperCapId => "bad keeper cap id"@,
        TxErrorView::BadKeeperCapDigest => "bad keeper cap digest"@,
        TxErrorView::BadOracleId => "bad oracle id"@,
        TxErrorView::BadFunctionName => "bad function name"@,
        TxErrorView::NoGasCoins(a) => "keeper address "@ + address_digits(a)
            + " has no SUI gas coins"@,
        TxErrorView::BadCoinId => "Unable to parse Address (must be hex string of length 32)"@,
        TxErrorView::BadCoinDigest =>
            "Unable to parse Digest (must be Base58 string of length 32)"@,
        TxErrorView::Build(e) => "PTB build failed: "@ + e,
        TxErrorView::Serialize => "bcs serialize tx"@,
        TxErrorView::Signing(e) => "signing failed: "@ + e,
    }
}

impl TxError {
    pub fn message(&self) -> (r: String)
        ensures
            r@ == tx_error_text(self@),
    {
        match self {
            TxError::BadPackageId => "bad package id".to_owned(),
            TxError::BadSharedObjectId => "bad shared object id".to_owned(),
            TxError::BadKeeperCapId => "bad keeper cap id".to_owned(),
            TxError::BadKeeperCapDigest => "bad keeper cap digest".to_owned(),
            TxError::BadOracleId => "bad oracle id".to_owned(),
            TxError::BadFunctionName => "bad function name".to_owned(),
            TxError::NoGasCoins(a) => join3(
                "keeper address ",
                address_text(a).as_str(),
                " has no SUI gas coins",
            ),
            TxError::BadCoinId =>
                "Unable to parse Address (must be hex string of length 32)".to_owned(),
            TxError::BadCoinDigest =>
                "Unable to parse Digest (must be Base58 string of length 32)".to_owned(),
            TxError::Build(e) => join("PTB build failed: ", e.as_str()),
            TxError::Serialize => "bcs serialize tx".to_owned(),
            TxError::Signing(e) => join("signing failed: ", e.as_str()),
        }
    }
}

/// The addresses of all ids, if every id is one.
pub open spec fn all_addresses(ids: Seq<Seq<char>>) -> Option<Seq<Seq<u8>>> {
    if forall|i: int| 0 <= i < ids.len() ==> address(#[trigger] ids[i]) is Some {
        Some(Seq::new(ids.len(), |i: int| address(ids[i])->0))
    } else {
        None
    }
}

/// The input for an argument. `cap` is the keeper capability as fetched.
pub open spec fn argument_input(arg: CallArgView, cap: Option<ObjectView>) -> Result<
    TxInput,
    TxErrorView,
> {
    match arg {
        CallArgView::SharedMut { id, initial_version } => match address(id) {
            Some(id) => Ok(TxInput::Shared { id, version: initial_version, mutable: true }),
            None => Err(TxErrorView::BadSharedObjectId),
        },
        CallArgView::SharedRef { id, initial_version } => match address(id) {
            Some(id) => Ok(TxInput::Shared { id, version: initial_version, mutable: false }),
            None => Err(TxErrorView::BadSharedObjectId),
        },
        CallArgView::ClockRef => Ok(
            TxInput::Shared {
                id: clock_id(),
                version: CLOCK_INITIAL_VERSION,
                mutable: false,
            },
        ),
        CallArgView::OwnedKeeperCap => match cap {
            None => Err(TxErrorView::BadKeeperCapId),
            Some(cap) => match address(cap.object_id) {
                None => Err(TxErrorView::BadKeeperCapId),
                Some(id) => match digest(cap.digest) {
                    None => Err(TxErrorView::BadKeeperCapDigest),
                    Some(digest) => Ok(TxInput::Owned { id, version: cap.version, digest }),
                },
            },
        },
        CallArgView::PureU64Vec(v) => Ok(TxInput::Pure(bcs_u64_vector(v))),
        CallArgView::PureU64(n) => Ok(TxInput::Pure(bcs_u64(n))),
        CallArgView::PureObjectIdVec(ids) => match all_addresses(ids) {
            Some(addresses) => Ok(TxInput::Pure(bcs_vector(addresses))),
            None => Err(TxErrorView::BadOracleId),
        },
    }
}

/// The object `0x6`.
pub open spec fn clock_id() -> Seq<u8> {
    Seq::new(32, |i: int| if i == 31 { 6u8 } else { 0u8 })
}

/// Reads every id as an address.
fn parse_addresses(ids: &Vec<String>) -> (r: Option<Vec<[u8; 32]>>)
    ensures
        match r {
            Some(v) => all_addresses(view_all(ids@)) == Some(view_all(v@)),
            None => all_addresses(view_all(ids@)) is None,
        },
{
    let ghost texts = view_all(ids@);
    let mut out: Vec<[u8; 32]> = Vec::new();
    let mut i: usize = 0;
    while i < ids.len()
        invariant
            i <= ids@.len(),
            out@.len() == i,
            texts == view_all(ids@),
            forall|k: int|
                0 <= k < i ==> address(#[trigger] texts[k]) == Some((#[trigger] out@[k])@),
        decreases ids@.len() - i,
    {
        assert(texts[i as int] == ids@[i as int]@);
        match parse_address(ids[i].as_str()) {
            Some(a) => out.push(a),
            None => return None,
        }
        i = i + 1;
    }
    assert forall|k: int| 0 <= k < texts.len() implies address(#[trigger] texts[k]) is Some by {
        assert(address(texts[k]) == Some(out@[k]@));
    }
    assert(all_addresses(texts)->0 =~= view_all(out@)) by {
        assert forall|k: int| 0 <= k < texts.len() implies address(#[trigger] texts[k])->0
            == view_all(out@)[k] by {
            assert(address(texts[k]) == Some(out@[k]@));
        }
    }
    Some(out)
}

/// The object `0x6`.
fn clock_address() -> (r: [u8; 32])
    ensures
        r@ == clock_id(),
{
    proof {
        reveal_strlit("0x6");
        let body = hex_body("0x6"@);
        assert(body =~= seq!['6']);
        assert(address("0x6"@)->0 =~= clock_id());
    }
    match parse_address("0x6") {
        Some(a) => a,
        None => [0u8; 32],
    }
}

// ---------------------------------------------------------------------------
// Calls
// ---------------------------------------------------------------------------

/// A call on the way to a signed transaction. Its arguments are placed in order;
/// `next` is the first that is not.
pub struct Call {
    package: [u8; 32],
    function: String,
    args: Vec<CallArg>,
    next: usize,
    builder: sui_transaction_builder::TransactionBuilder,
    placed: Vec<sui_transaction_builder::Argument>,
}

/// The model of a call.
#[verifier::ext_equal]
pub struct CallView {
    pub package: Seq<u8>,
    pub function: Seq<char>,
    pub args: Seq<CallArgView>,
    pub next: int,
    pub draft: Draft,
    /// The input of each placed argument.
    pub placed: Seq<int>,
}

impl View for Call {
    type V = CallView;

    closed spec fn view(&self) -> CallView {
        CallView {
            package: self.package@,
            function: self.function@,
            args: view_all(self.args@),
            next: self.next as int,
            draft: builder_contents(self.builder),
            placed: positions(self.placed@),
        }
    }
}

/// What a call keeps at every step: an argument that is placed has an input, and
/// no argument makes more than one.
pub open spec fn call_wf(c: CallView) -> bool {
    &&& 0 <= c.next <= c.args.len() <= MAX_ARGUMENTS
    &&& c.placed.len() == c.next
    &&& c.draft.inputs.len() <= c.next
    &&& forall|i: int|
        0 <= i < c.placed.len() ==> 0 <= #[trigger] c.placed[i] < c.draft.inputs.len()
    &&& forall|i: int|
        0 <= i < c.args.len() ==> fits(#[trigger] c.args[i])
}

/// A vector that BCS can hold.
pub open spec fn fits(arg: CallArgView) -> bool {
    match arg {
        CallArgView::PureU64Vec(v) => v.len() <= i32::MAX,
        CallArgView::PureObjectIdVec(v) => v.len() <= i32::MAX,
        _ => true,
    }
}

/// Whether a call can have these arguments.
pub fn arguments_fit(args: &Vec<CallArg>) -> (r: bool)
    ensures
        r == (args@.len() <= MAX_ARGUMENTS && forall|i: int|
            0 <= i < args@.len() ==> fits(#[trigger] view_all(args@)[i])),
{
    let ghost all = view_all(args@);
    if args.len() > MAX_ARGUMENTS {
        return false;
    }
    let mut i: usize = 0;
    while i < args.len()
        invariant
            i <= args@.len(),
            all == view_all(args@),
            forall|k: int| 0 <= k < i ==> fits(#[trigger] all[k]),
        decreases args@.len() - i,
    {
        assert(all[i as int] == args@[i as int]@);
        let fit = match &args[i] {
            CallArg::PureU64Vec(v) => v.len() <= 0x7fff_ffff,
            CallArg::PureObjectIdVec(v) => v.len() <= 0x7fff_ffff,
            _ => true,
        };
        if !fit {
            assert(!fits(all[i as int]));
            return false;
        }
        i = i + 1;
    }
    true
}

/// A call with nothing placed.
pub open spec fn new_call(
    package: Seq<u8>,
    function: Seq<char>,
    args: Seq<CallArgView>,
) -> CallView {
    CallView { package, function, args, next: 0, draft: empty_draft(), placed: seq![] }
}

/// The call with the next argument placed as the input `i`.
pub open spec fn place(c: CallView, i: TxInput) -> CallView {
    CallView {
        next: c.next + 1,
        draft: with_input_in(c.draft, i),
        placed: c.placed.push(position(c.draft.inputs, i)),
        ..c
    }
}

/// The call with its next argument placed.
pub open spec fn place_next(c: CallView, cap: Option<ObjectView>) -> Result<
    CallView,
    TxErrorView,
> {
    match argument_input(c.args[c.next], cap) {
        Ok(i) => Ok(place(c, i)),
        Err(e) => Err(e),
    }
}

/// The call with `n` more arguments placed; the first that is bad decides.
pub open spec fn place_many(c: CallView, cap: Option<ObjectView>, n: nat) -> Result<
    CallView,
    TxErrorView,
>
    decreases n,
{
    if n == 0 {
        Ok(c)
    } else {
        match place_many(c, cap, (n - 1) as nat) {
            Err(e) => Err(e),
            Ok(c) => place_next(c, cap),
        }
    }
}

/// How many arguments from `next` on can be placed before the keeper capability
/// is needed.
pub open spec fn stretch(args: Seq<CallArgView>, next: int) -> nat
    decreases args.len() - next,
{
    if next < 0 || next >= args.len() || args[next] is OwnedKeeperCap {
        0
    } else {
        1 + stretch(args, next + 1)
    }
}

/// The call, with everything placed, aimed at its function.
pub open spec fn aimed(c: CallView) -> Result<CallView, TxErrorView> {
    if identifier(c.function) {
        Ok(
            CallView {
                draft: Draft {
                    call: Some(
                        MoveCall {
                            package: c.package,
                            module: "apex_pool"@,
                            function: c.function,
                            args: c.placed,
                        },
                    ),
                    ..c.draft
                },
                ..c
            },
        )
    } else {
        Err(TxErrorView::BadFunctionName)
    }
}

/// Placing everything up to the next keeper capability, and aiming at the
/// function if none is left.
pub open spec fn advanced(c: CallView) -> Result<CallView, TxErrorView> {
    match place_many(c, None, stretch(c.args, c.next)) {
        Err(e) => Err(e),
        Ok(c) => if c.next < c.args.len() {
            Ok(c)
        } else {
            aimed(c)
        },
    }
}

/// What a call waits for.
#[derive(Debug, Clone, Copy, PartialEq, Eq, Structural)]
pub enum Need {
    /// The keeper capability, as it is on chain now.
    KeeperCap,
    /// The coins of the keeper; nothing else is left to place.
    Coins,
}

proof fn lemma_place_keeps(c: CallView, i: TxInput)
    requires
        call_wf(c),
        c.next < c.args.len(),
    ensures
        call_wf(place(c, i)),
        place(c, i).args == c.args,
        place(c, i).next == c.next + 1,
{
    lemma_found(c.draft.inputs, i);
    let after = place(c, i);
    assert forall|k: int| 0 <= k < after.placed.len() implies 0 <= #[trigger] after.placed[k]
        < after.draft.inputs.len() by {
        if k < c.placed.len() {
            assert(after.placed[k] == c.placed[k]);
        }
    }
}

impl Call {
    /// Starts a call of a function of the pool module in a package.
    pub fn start(package_id: &str, function: &str, args: Vec<CallArg>) -> (r: Result<
        Call,
        TxError,
    >)
        requires
            args@.len() <= MAX_ARGUMENTS,
            forall|i: int| 0 <= i < args@.len() ==> fits(#[trigger] view_all(args@)[i]),
        ensures
            match address(package_id@) {
                Some(package) => r matches Ok(c) && call_wf(c@) && c@ == new_call(
                    package,
                    function@,
                    view_all(args@),
                ),
                None => r == Err::<Call, TxError>(TxError::BadPackageId),
            },
    {
        let builder = new_builder();
        match parse_address(package_id) {
            None => Err(TxError::BadPackageId),
            Some(package) => {
                let c = Call {
                    package,
                    function: function.to_owned(),
                    args,
                    next: 0,
                    builder,
                    placed: Vec::new(),
                };
                assert(c@.placed =~= seq![]);
                Ok(c)
            },
        }
    }

    /// Places the next argument.
    fn place_argument(&mut self, cap: Option<&ObjectData>) -> (r: Result<(), TxError>)
        requires
            call_wf(old(self)@),
            old(self)@.next < old(self)@.args.len(),
            old(self)@.draft.call is None,
        ensures
            match place_next(old(self)@, view_opt(cap)) {
                Ok(c) => r is Ok && final(self)@ == c && call_wf(c) && c.draft.call is None,
                Err(e) => r matches Err(f) && f@ == e,
            },
    {
        let ghost before = self@;
        assert(fits(before.args[before.next]));
        assert(before.args[before.next] == self.args@[self.next as int]@);
        let argument = match &self.args[self.next] {
            CallArg::SharedMut { id, initial_version } => match parse_address(id.as_str()) {
                Some(a) => add_shared(&mut self.builder, &a, *initial_version, true),
                None => return Err(TxError::BadSharedObjectId),
            },
            CallArg::SharedRef { id, initial_version } => match parse_address(id.as_str()) {
                Some(a) => add_shared(&mut self.builder, &a, *initial_version, false),
                None => return Err(TxError::BadSharedObjectId),
            },
            CallArg::ClockRef => add_shared(
                &mut self.builder,
                &clock_address(),
                CLOCK_INITIAL_VERSION,
                false,
            ),
            CallArg::OwnedKeeperCap => {
                let cap = match cap {
                    Some(cap) => cap,
                    None => return Err(TxError::BadKeeperCapId),
                };
                let id = match parse_address(cap.object_id.as_str()) {
                    Some(a) => a,
                    None => return Err(TxError::BadKeeperCapId),
                };
                let digest = match parse_digest(cap.digest.as_str()) {
                    Some(d) => d,
                    None => return Err(TxError::BadKeeperCapDigest),
                };
                add_owned(&mut self.builder, &id, cap.version, &digest)
            },
            CallArg::PureU64Vec(values) => add_u64_vec(&mut self.builder, values),
            CallArg::PureU64(value) => add_u64(&mut self.builder, *value),
            CallArg::PureObjectIdVec(ids) => match parse_addresses(ids) {
                Some(addresses) => add_bytes32_vec(&mut self.builder, &addresses),
                None => return Err(TxError::BadOracleId),
            },
        };
        let ghost input = argument_input(before.args[before.next], view_opt(cap))->Ok_0;
        let ghost old_placed = self.placed@;
        self.placed.push(argument);
        self.next = self.next + 1;
        proof {
            assert(positions(self.placed@) =~= positions(old_placed).push(
                argument_position(argument),
            ));
            lemma_place_keeps(before, input);
        }
        Ok(())
    }

    /// Places arguments until the keeper capability is needed, or all of them.
    pub fn advance(self) -> (r: Result<(Call, Need), TxError>)
        requires
            call_wf(self@),
            self@.draft.call is None,
        ensures
            match advanced(self@) {
                Ok(c) => r matches Ok((call, need)) && call@ == c && call_wf(c) && (need
                    == Need::Coins <==> c.draft.call is Some) && (need == Need::KeeperCap
                    <==> c.next < c.args.len()),
                Err(e) => r matches Err(f) && f@ == e,
            },
    {
        let ghost start = self@;
        let mut call = self;
        let mut done: Ghost<nat> = Ghost(0);
        while call.next < call.args.len()
            invariant
                start == self@,
                call_wf(call@),
                call@.args == start.args,
                call@.draft.call is None,
                call@.next == start.next + done@,
                0 <= start.next,
                place_many(start, None, done@) == Ok::<CallView, TxErrorView>(call@),
                stretch(start.args, start.next) == done@ + stretch(start.args, call@.next),
            decreases call@.args.len() - call@.next,
        {
            assert(call@.args[call@.next] == call.args@[call.next as int]@);
            match &call.args[call.next] {
                CallArg::OwnedKeeperCap => {
                    return Ok((call, Need::KeeperCap));
                },
                _ => {},
            }
            assert(stretch(start.args, call@.next) == 1 + stretch(start.args, call@.next + 1));
            let ghost before = call@;
            proof {
                lemma_place_split(start, None, done@, 1);
                assert(place_many(before, None, 0) == Ok::<CallView, TxErrorView>(before));
                assert(place_many(before, None, 1) == place_next(before, None));
                if place_next(before, None) is Err {
                    lemma_place_fails(
                        start,
                        None,
                        done@ + 1,
                        stretch(start.args, start.next),
                    );
                }
            }
            match call.place_argument(None) {
                Ok(()) => {},
                Err(e) => return Err(e),
            }
            proof {
                done@ = done@ + 1;
            }
        }
        if !is_identifier(call.function.as_str()) {
            return Err(TxError::BadFunctionName);
        }
        proof {
            reveal_strlit("apex_pool");
        }
        move_call(
            &mut call.builder,
            &call.package,
            "apex_pool",
            call.function.as_str(),
            &call.placed,
        );
        Ok((call, Need::Coins))
    }
}

impl Call {
    /// Places the keeper capability, as it was fetched, where the call waits for it.
    pub fn supply_cap(self, cap: &ObjectData) -> (r: Result<Call, TxError>)
        requires
            call_wf(self@),
            self@.next < self@.args.len(),
            self@.draft.call is None,
        ensures
            match place_next(self@, Some(cap@)) {
                Ok(c) => r matches Ok(call) && call@ == c && call_wf(c) && c.draft.call is None,
                Err(e) => r matches Err(f) && f@ == e,
            },
    {
        let mut call = self;
        match call.place_argument(Some(cap)) {
            Ok(()) => Ok(call),
            Err(e) => Err(e),
        }
    }

    /// Pays with the largest of the coins.
    pub fn pay(self, signer: &KeeperSigner, coins: &Vec<GasCoin>) -> (r: Result<Call, TxError>)
        requires
            call_wf(self@),
        ensures
            match paid(self@, signer.account(), view_all(coins@)) {
                Ok(c) => r matches Ok(call) && call@ == c && call_wf(c) && c.draft.gas.len() > 0,
                Err(e) => r matches Err(f) && f@ == e,
            },
    {
        let ghost all = view_all(coins@);
        let i: usize = match largest_coin(coins) {
            Some(i) => i,
            None => return Err(TxError::NoGasCoins(signer.address)),
        };
        proof {
            lemma_largest(all);
        }
        assert(all[i as int] == coins@[i as int]@);
        let id = match parse_address(coins[i].id.as_str()) {
            Some(a) => a,
            None => return Err(TxError::BadCoinId),
        };
        let coin_digest = match parse_digest(coins[i].digest.as_str()) {
            Some(d) => d,
            None => return Err(TxError::BadCoinDigest),
        };
        let mut call = self;
        add_gas_object(&mut call.builder, &id, coins[i].version, &coin_digest);
        Ok(call)
    }

    /// Builds the transaction, with the keeper as the sender, and signs it.
    pub fn seal(self, gas_price: u64, signer: &KeeperSigner) -> (r: Result<SignedCall, TxError>)
        requires
            call_wf(self@),
            self@.draft.gas.len() > 0,
        ensures
            match signed(priced(self@.draft, gas_price, signer.account()), signer.key()) {
                Ok(s) => r matches Ok(t) && t@ == s,
                Err(e) => r matches Err(f) && f@ == e,
            },
    {
        let mut builder = self.builder;
        set_gas_budget(&mut builder, GAS_BUDGET);
        set_gas_price(&mut builder, gas_price);
        set_sender(&mut builder, &signer.address);
        let transaction = match try_build(builder) {
            Ok(t) => t,
            Err(e) => return Err(TxError::Build(e)),
        };
        let bytes = match transaction_bytes(&transaction) {
            Some(b) => b,
            None => return Err(TxError::Serialize),
        };
        let tx_bytes = encode_base64(&bytes);
        match sign_transaction(&signer.key, &transaction) {
            Ok(signature) => Ok(SignedCall { tx_bytes, signature }),
            Err(e) => Err(TxError::Signing(e)),
        }
    }
}

/// A transaction ready to be sent: its bytes and its signature, both in Base64.
#[derive(Debug, PartialEq, Eq)]
pub struct SignedCall {
    pub tx_bytes: String,
    pub signature: String,
}

pub struct SignedCallView {
    pub tx_bytes: Seq<char>,
    pub signature: Seq<char>,
}

impl View for SignedCall {
    type V = SignedCallView;

    open spec fn view(&self) -> SignedCallView {
        SignedCallView { tx_bytes: self.tx_bytes@, signature: self.signature@ }
    }
}

/// The place of the coin with the largest balance, of several the last.
pub open spec fn largest(coins: Seq<GasCoinView>) -> int
    decreases coins.len(),
{
    if coins.len() <= 1 {
        0
    } else {
        let k = largest(coins.drop_last());
        if coins.last().balance >= coins[k].balance {
            coins.len() - 1
        } else {
            k
        }
    }
}

proof fn lemma_largest(coins: Seq<GasCoinView>)
    requires
        coins.len() > 0,
    ensures
        0 <= largest(coins) < coins.len(),
        forall|i: int|
            0 <= i < coins.len() ==> (#[trigger] coins[i]).balance
                <= coins[largest(coins)].balance,
        forall|i: int|
            largest(coins) < i < coins.len() ==> (#[trigger] coins[i]).balance
                < coins[largest(coins)].balance,
    decreases coins.len(),
{
    if coins.len() > 1 {
        let head = coins.drop_last();
        lemma_largest(head);
        assert forall|i: int| 0 <= i < head.len() implies (#[trigger] coins[i]).balance
            <= coins[largest(head)].balance && (largest(head) < i ==> coins[i].balance
            < coins[largest(head)].balance) by {
            assert(coins[i] == head[i]);
        }
    }
}

/// The largest coin.
fn largest_coin(coins: &Vec<GasCoin>) -> (r: Option<usize>)
    ensures
        match r {
            Some(i) => coins@.len() > 0 && i == largest(view_all(coins@)),
            None => coins@.len() == 0,
        },
{
    let ghost all = view_all(coins@);
    if coins.len() == 0 {
        return None;
    }
    let mut best: usize = 0;
    let mut i: usize = 1;
    while i < coins.len()
        invariant
            1 <= i <= coins@.len(),
            best < i,
            all == view_all(coins@),
            best == largest(all.take(i as int)),
        decreases coins@.len() - i,
    {
        assert(all.take(i + 1).drop_last() =~= all.take(i as int));
        assert(all[i as int] == coins@[i as int]@);
        assert(all[best as int] == coins@[best as int]@);
        if coins[i].balance >= coins[best].balance {
            best = i;
        }
        i = i + 1;
    }
    assert(all.take(coins@.len() as int) =~= all);
    Some(best)
}

/// The call with the largest of the coins to pay for it.
pub open spec fn paid(c: CallView, sender: Seq<u8>, coins: Seq<GasCoinView>) -> Result<
    CallView,
    TxErrorView,
> {
    if coins.len() == 0 {
        Err(TxErrorView::NoGasCoins(sender))
    } else {
        let coin = coins[largest(coins)];
        match (address(coin.id), digest(coin.digest)) {
            (None, _) => Err(TxErrorView::BadCoinId),
            (Some(_), None) => Err(TxErrorView::BadCoinDigest),
            (Some(id), Some(digest)) => Ok(
                CallView {
                    draft: Draft {
                        gas: c.draft.gas.push(GasObject { id, version: coin.version, digest }),
                        ..c.draft
                    },
                    ..c
                },
            ),
        }
    }
}

/// The draft with the budget, the price and the sender set.
pub open spec fn priced(d: Draft, gas_price: u64, sender: Seq<u8>) -> Draft {
    Draft { budget: Some(GAS_BUDGET), price: Some(gas_price), sender: Some(sender), ..d }
}

/// A draft, built and signed.
pub open spec fn signed(d: Draft, key: Seq<u8>) -> Result<SignedCallView, TxErrorView> {
    match transaction_bcs(d) {
        None => Err(TxErrorView::Serialize),
        Some(bytes) => match transaction_signature(key, d) {
            Err(e) => Err(TxErrorView::Signing(e)),
            Ok(signature) => Ok(SignedCallView { tx_bytes: base64_text(bytes), signature }),
        },
    }
}

/// Advancing, and supplying the keeper capability whenever it is asked for.
pub open spec fn run(c: CallView, cap: ObjectView) -> Result<CallView, TxErrorView>
    decreases c.args.len() - c.next,
    when 0 <= c.next <= c.args.len()
    via run_ends
{
    match advanced(c) {
        Err(e) => Err(e),
        Ok(d) => if d.next >= d.args.len() {
            Ok(d)
        } else {
            match place_next(d, Some(cap)) {
                Err(e) => Err(e),
                Ok(d) => run(d, cap),
            }
        },
    }
}

#[via_fn]
proof fn run_ends(c: CallView, cap: ObjectView) {
    lemma_stretch(c.args, c.next);
    lemma_place_frame(c, None, stretch(c.args, c.next));
}

proof fn lemma_place_frame(c: CallView, cap: Option<ObjectView>, n: nat)
    ensures
        place_many(c, cap, n) matches Ok(d) ==> d.args == c.args && d.next == c.next + n
            && d.function == c.function && d.package == c.package,
    decreases n,
{
    if n > 0 {
        lemma_place_frame(c, cap, (n - 1) as nat);
    }
}

proof fn lemma_stretch(args: Seq<CallArgView>, next: int)
    requires
        0 <= next <= args.len(),
    ensures
        next + stretch(args, next) <= args.len(),
        next + stretch(args, next) < args.len() ==> args[next + stretch(args, next)]
            is OwnedKeeperCap,
        forall|i: int| next <= i < next + stretch(args, next) ==> args[i] !is OwnedKeeperCap,
    decreases args.len() - next,
{
    if next < args.len() && args[next] !is OwnedKeeperCap {
        lemma_stretch(args, next + 1);
    }
}

/// Arguments other than the keeper capability do not depend on it.
proof fn lemma_place_without_cap(c: CallView, cap: ObjectView, n: nat)
    requires
        0 <= c.next,
        c.next + n <= c.args.len(),
        forall|i: int| c.next <= i < c.next + n ==> c.args[i] !is OwnedKeeperCap,
    ensures
        place_many(c, None, n) == place_many(c, Some(cap), n),
    decreases n,
{
    if n > 0 {
        lemma_place_without_cap(c, cap, (n - 1) as nat);
        lemma_place_frame(c, None, (n - 1) as nat);
        assert(c.args[c.next + n - 1] !is OwnedKeeperCap);
    }
}

/// However often a call stops to ask for the keeper capability, what comes out is
/// its arguments placed one after the other, the first bad one deciding on the
/// error, and then the function aimed at.
pub proof fn law_arguments_are_placed_in_order(c: CallView, cap: ObjectView)
    requires
        0 <= c.next <= c.args.len(),
    ensures
        run(c, cap) == match place_many(c, Some(cap), (c.args.len() - c.next) as nat) {
            Err(e) => Err(e),
            Ok(d) => aimed(d),
        },
    decreases c.args.len() - c.next,
{
    let total = (c.args.len() - c.next) as nat;
    let k = stretch(c.args, c.next);
    lemma_stretch(c.args, c.next);
    lemma_place_without_cap(c, cap, k);
    lemma_place_frame(c, Some(cap), k);
    lemma_place_split(c, Some(cap), k, (total - k) as nat);
    assert(k + (total - k) as nat == total);
    if place_many(c, Some(cap), k) is Ok && k < total {
        let d = place_many(c, Some(cap), k)->Ok_0;
        lemma_place_split(d, Some(cap), 1, (total - k - 1) as nat);
        assert(1 + (total - k - 1) as nat == (total - k) as nat);
        assert(place_many(d, Some(cap), 0) == Ok::<CallView, TxErrorView>(d));
        assert(place_many(d, Some(cap), 1) == place_next(d, Some(cap)));
        if place_next(d, Some(cap)) is Ok {
            law_arguments_are_placed_in_order(place_next(d, Some(cap))->Ok_0, cap);
        }
    } else if place_many(c, Some(cap), k) is Ok {
        let d = place_many(c, Some(cap), k)->Ok_0;
        assert(place_many(d, Some(cap), 0) == Ok::<CallView, TxErrorView>(d));
    }
}

/// Whether an input is that of an argument, and as mutable as the argument wants it.
pub open spec fn serves(input: TxInput, wanted: TxInput) -> bool {
    &&& same_input(input, wanted)
    &&& input matches TxInput::Shared { mutable, .. } ==> (wanted matches TxInput::Shared {
        mutable: needed,
        ..
    } ==> needed ==> mutable)
}

/// The placed arguments of a call all have the inputs that they want.
pub open spec fn all_served(c: CallView, cap: Option<ObjectView>) -> bool {
    &&& 0 <= c.next <= c.args.len()
    &&& c.placed.len() == c.next
    &&& forall|i: int|
        #![trigger c.placed[i]]
        0 <= i < c.next ==> {
            &&& 0 <= c.placed[i] < c.draft.inputs.len()
            &&& argument_input(c.args[i], cap) is Ok
            &&& serves(c.draft.inputs[c.placed[i]], argument_input(c.args[i], cap)->Ok_0)
        }
}

/// The input at a position, if it is not the end, is one with the input looked for.
proof fn lemma_found(inputs: Seq<TxInput>, i: TxInput)
    ensures
        0 <= position(inputs, i) <= inputs.len(),
        position(inputs, i) < inputs.len() ==> same_input(inputs[position(inputs, i)], i),
    decreases inputs.len(),
{
    if inputs.len() > 0 {
        lemma_found(inputs.drop_last(), i);
        let p = position(inputs.drop_last(), i);
        if p < inputs.len() - 1 {
            assert(inputs.drop_last()[p] == inputs[p]);
        }
    }
}

proof fn lemma_place_serves(c: CallView, cap: Option<ObjectView>)
    requires
        all_served(c, cap),
        c.next < c.args.len(),
        place_next(c, cap) is Ok,
    ensures
        all_served(place_next(c, cap)->Ok_0, cap),
{
    let wanted = argument_input(c.args[c.next], cap)->Ok_0;
    let after = place(c, wanted);
    let at = position(c.draft.inputs, wanted);
    lemma_found(c.draft.inputs, wanted);
    assert forall|i: int|
        #![trigger after.placed[i]]
        0 <= i < after.next implies 0 <= after.placed[i] < after.draft.inputs.len()
        && argument_input(after.args[i], cap) is Ok && serves(
        after.draft.inputs[after.placed[i]],
        argument_input(after.args[i], cap)->Ok_0,
    ) by {
        if i < c.next {
            assert(after.placed[i] == c.placed[i]);
            let was = c.draft.inputs[c.placed[i]];
            assert(serves(was, argument_input(c.args[i], cap)->Ok_0));
        }
    }
}

/// Every argument of a call gets the input that it asks for, also where two
/// arguments share one, and a shared object is mutable if any argument needs it so.
pub proof fn law_arguments_keep_their_inputs(c: CallView, cap: Option<ObjectView>, n: nat)
    requires
        c.next == 0,
        c.placed.len() == 0,
        n <= c.args.len(),
        place_many(c, cap, n) is Ok,
    ensures
        all_served(place_many(c, cap, n)->Ok_0, cap),
        place_many(c, cap, n)->Ok_0.next == n,
    decreases n,
{
    lemma_place_frame(c, cap, n);
    if n > 0 {
        law_arguments_keep_their_inputs(c, cap, (n - 1) as nat);
        lemma_place_frame(c, cap, (n - 1) as nat);
        lemma_place_serves(place_many(c, cap, (n - 1) as nat)->Ok_0, cap);
    }
}

/// The gas is paid with a coin that no other exceeds.
pub proof fn law_largest_coin_pays(coins: Seq<GasCoinView>, i: int)
    requires
        0 <= i < coins.len(),
    ensures
        0 <= largest(coins) < coins.len(),
        coins[i].balance <= coins[largest(coins)].balance,
{
    lemma_largest(coins);
}

/// An address that is written down reads back as itself.
pub proof fn law_address_reads_back(bytes: Seq<u8>)
    requires
        bytes.len() == 32,
    ensures
        address(address_digits(bytes)) == Some(bytes),
{
    let s = address_digits(bytes);
    let body = hex_body(s);
    let digits = Seq::new(
        64,
        |i: int|
            hex_char(
                if i % 2 == 0 {
                    bytes[i / 2] as int / 16
                } else {
                    bytes[i / 2] as int % 16
                },
            ),
    );
    assert(s =~= seq!['0', 'x'] + digits);
    assert(body =~= digits);
    assert forall|i: int| 0 <= i < body.len() implies is_hex(#[trigger] body[i]) by {}
    assert forall|j: int| 0 <= j < 32 implies #[trigger] bytes[j] == (16 * nibble(
        body,
        2 * (31 - j) + 1,
    ) + nibble(body, 2 * (31 - j))) as u8 by {
        assert(body.len() - 1 - (2 * (31 - j) + 1) == 2 * j);
        assert(body.len() - 1 - 2 * (31 - j) == 2 * j + 1);
        assert((2 * j) / 2 == j && (2 * j) % 2 == 0);
        assert((2 * j + 1) / 2 == j && (2 * j + 1) % 2 == 1);
        assert(hex_value(body[2 * j]) == bytes[j] as int / 16);
        assert(hex_value(body[2 * j + 1]) == bytes[j] as int % 16);
    }
    assert(address(s)->0 =~= bytes);
}

/// Placing in two steps is placing at once.
proof fn lemma_place_split(c: CallView, cap: Option<ObjectView>, a: nat, b: nat)
    ensures
        place_many(c, cap, a + b) == match place_many(c, cap, a) {
            Ok(d) => place_many(d, cap, b),
            Err(e) => Err(e),
        },
    decreases b,
{
    if b > 0 {
        lemma_place_split(c, cap, a, (b - 1) as nat);
        assert(a + b - 1 == a + (b - 1));
    }
}

/// A bad argument stops everything after it.
proof fn lemma_place_fails(c: CallView, cap: Option<ObjectView>, a: nat, b: nat)
    requires
        a <= b,
        place_many(c, cap, a) is Err,
    ensures
        place_many(c, cap, b) == place_many(c, cap, a),
    decreases b,
{
    if a < b {
        lemma_place_fails(c, cap, a, (b - 1) as nat);
    }
}

// ---------------------------------------------------------------------------
// What the parts mean
// ---------------------------------------------------------------------------

/// A text is a private key if and only if it decodes with the prefix `suiprivkey` to a
/// zero byte and 32 bytes more, which are the key.
pub proof fn law_keys_are_32_bytes_behind_a_flag(
    prefix: Seq<char>,
    data: Seq<u8>,
    key: Seq<u8>,
)
    ensures
        payload_key(Ok((prefix, data))) == Ok::<Seq<u8>, KeyErrorView>(key) <==> prefix
            == "suiprivkey"@ && key.len() == 32 && data == seq![0u8] + key,
{
    if prefix == "suiprivkey"@ && key.len() == 32 && data == seq![0u8] + key {
        assert(data.skip(1) =~= key);
    }
    if payload_key(Ok((prefix, data))) == Ok::<Seq<u8>, KeyErrorView>(key) {
        assert(data =~= seq![0u8] + key);
    }
}

/// What is wrong with a text is told in this order: it does not decode, its prefix is
/// another, it holds nothing, its flag is another, its key has another length.
pub proof fn law_bad_keys_are_told_apart(
    prefix: Seq<char>,
    data: Seq<u8>,
    e: Seq<char>,
)
    ensures
        payload_key(Err(e)) == Err::<Seq<u8>, KeyErrorView>(KeyErrorView::Bech32(e)),
        prefix != "suiprivkey"@ ==> payload_key(Ok((prefix, data))) == Err::<
            Seq<u8>,
            KeyErrorView,
        >(KeyErrorView::WrongPrefix),
        payload_key(Ok(("suiprivkey"@, Seq::<u8>::empty()))) == Err::<Seq<u8>, KeyErrorView>(
            KeyErrorView::Empty,
        ),
        data.len() > 0 && data[0] != 0 ==> payload_key(Ok(("suiprivkey"@, data))) == Err::<
            Seq<u8>,
            KeyErrorView,
        >(KeyErrorView::WrongFlag(data[0])),
        data.len() != 32 ==> payload_key(Ok(("suiprivkey"@, seq![0u8] + data))) == Err::<
            Seq<u8>,
            KeyErrorView,
        >(KeyErrorView::WrongLength(data.len() as int)),
{
}

/// A byte is written as `0x` and its one or two digits, most significant first, without
/// a leading zero.
pub proof fn law_bytes_are_written_in_hexadecimal(b: u8)
    ensures
        ({
            let s = hex_byte(b);
            &&& s.len() == 3 || s.len() == 4
            &&& s[0] == '0' && s[1] == 'x'
            &&& s.len() == 3 ==> is_hex(s[2]) && hex_value(s[2]) == b
            &&& s.len() == 4 ==> is_hex(s[2]) && is_hex(s[3]) && hex_value(s[2]) > 0 && 16
                * hex_value(s[2]) + hex_value(s[3]) == b
        }),
{
    reveal_strlit("0x");
}

/// A shared object keeps its id and its version, and is mutable for one kind of argument
/// and not for the other; an id that is no address is refused.
pub proof fn law_shared_arguments(id: String, initial_version: u64, cap: Option<ObjectView>)
    ensures
        ({
            let changed = argument_input(CallArg::SharedMut { id, initial_version }@, cap);
            let read = argument_input(CallArg::SharedRef { id, initial_version }@, cap);
            match address(id@) {
                Some(a) => {
                    &&& changed matches Ok(TxInput::Shared { id: b, version, mutable }) && b == a
                        && version == initial_version && mutable
                    &&& read matches Ok(TxInput::Shared { id: b, version, mutable }) && b == a
                        && version == initial_version && !mutable
                },
                None => changed == Err::<TxInput, TxErrorView>(TxErrorView::BadSharedObjectId)
                    && read == Err::<TxInput, TxErrorView>(TxErrorView::BadSharedObjectId),
            }
        }),
{
}

/// The clock is the object `0x6`, shared at version 1 and only read.
pub proof fn law_clock_argument(cap: Option<ObjectView>)
    ensures
        address("0x6"@) matches Some(six) && (argument_input(
            CallArg::ClockRef@,
            cap,
        ) matches Ok(TxInput::Shared { id, version, mutable }) && id == six && version == 1
            && !mutable),
{
    reveal_strlit("0x6");
    let body = hex_body("0x6"@);
    assert(body =~= seq!['6']);
    assert(address("0x6"@)->0 =~= clock_id());
}

/// The keeper capability is used at the version and the digest with which it was fetched,
/// and without it nothing is placed.
pub proof fn law_capability_argument(cap: ObjectView)
    ensures
        argument_input(CallArg::OwnedKeeperCap@, None) is Err,
        match (address(cap.object_id), digest(cap.digest)) {
            (Some(a), Some(d)) => argument_input(CallArg::OwnedKeeperCap@, Some(cap)) matches Ok(
                TxInput::Owned { id, version, digest },
            ) && id == a && version == cap.version && digest == d,
            (None, _) => argument_input(CallArg::OwnedKeeperCap@, Some(cap)) == Err::<
                TxInput,
                TxErrorView,
            >(TxErrorView::BadKeeperCapId),
            (Some(_), None) => argument_input(CallArg::OwnedKeeperCap@, Some(cap)) == Err::<
                TxInput,
                TxErrorView,
            >(TxErrorView::BadKeeperCapDigest),
        },
{
}

/// The value of bytes, least significant first.
pub open spec fn le_value(bytes: Seq<u8>) -> nat
    decreases bytes.len(),
{
    if bytes.len() == 0 {
        0
    } else {
        bytes[0] as nat + 256 * le_value(bytes.skip(1))
    }
}

proof fn lemma_le_value(v: nat, n: nat)
    ensures
        le_bytes(v, n).len() == n,
        le_value(le_bytes(v, n)) == v % pow256(n),
    decreases n,
{
    if n > 0 {
        let rest = le_bytes(v / 256, (n - 1) as nat);
        lemma_le_value(v / 256, (n - 1) as nat);
        lemma_pow256((n - 1) as nat);
        assert(le_bytes(v, n).skip(1) =~= rest);
        let p = pow256((n - 1) as nat);
        let q = v / 256;
        assert(v == 256 * q + v % 256);
        lemma_mod_split(q, p, v % 256);
    } else {
        assert(v % 1 == 0);
    }
}

proof fn lemma_mod_split(q: nat, p: nat, r: nat)
    requires
        p > 0,
        r < 256,
    ensures
        (256 * q + r) % (256 * p) == r + 256 * (q % p),
{
    let k = q / p;
    let m = q % p;
    vstd::arithmetic::div_mod::lemma_fundamental_div_mod(q as int, p as int);
    assert(256 * q + r == k * (256 * p) + (r + 256 * m)) by (nonlinear_arith)
        requires
            q == p * k + m,
    ;
    assert(0 <= r + 256 * m < 256 * p);
    vstd::arithmetic::div_mod::lemma_fundamental_div_mod_converse(
        (256 * q + r) as int,
        (256 * p) as int,
        k as int,
        (r + 256 * m) as int,
    );
}

/// A power of 256.
pub open spec fn pow256(n: nat) -> nat
    decreases n,
{
    if n == 0 {
        1
    } else {
        256 * pow256((n - 1) as nat)
    }
}

proof fn lemma_pow256(n: nat)
    ensures
        pow256(n) > 0,
    decreases n,
{
    if n > 0 {
        lemma_pow256((n - 1) as nat);
    }
}

/// A number is handed over in eight bytes, least significant first, and reads back from
/// them.
pub proof fn law_number_argument(n: u64, cap: Option<ObjectView>)
    ensures
        argument_input(CallArg::PureU64(n)@, cap) matches Ok(TxInput::Pure(bytes)) && bytes.len()
            == 8 && le_value(bytes) == n,
{
    lemma_le_value(n as nat, 8);
    reveal_with_fuel(pow256, 9);
    assert(pow256(8) == 0x1_0000_0000_0000_0000);
    assert(n as nat % pow256(8) == n);
}

proof fn lemma_flat(items: Seq<Seq<u8>>, width: nat, i: int)
    requires
        forall|k: int| 0 <= k < items.len() ==> (#[trigger] items[k]).len() == width,
        0 <= i < items.len(),
    ensures
        flat(items).len() == items.len() * width,
        flat(items).subrange(i * width, (i + 1) * width) == items[i],
        0 <= i * width <= (i + 1) * width <= flat(items).len(),
    decreases items.len(),
{
    let head = items.drop_last();
    let n = items.len() as int;
    lemma_flat_len(head, width);
    lemma_flat_len(items, width);
    assert(i * width <= (i + 1) * width <= n * width && 0 <= i * width) by (nonlinear_arith)
        requires
            0 <= i < n,
            width >= 0,
    ;
    if i < n - 1 {
        lemma_flat(head, width, i);
        assert(head[i] == items[i]);
        assert(flat(items).subrange(i * width, (i + 1) * width) =~= flat(head).subrange(
            i * width,
            (i + 1) * width,
        ));
    } else {
        assert((n - 1) * width == head.len() * width);
        assert((i + 1) * width == (n - 1) * width + width) by (nonlinear_arith)
            requires
                i == n - 1,
        ;
        assert(items.last().len() == width);
        assert(flat(items).subrange(i * width, (i + 1) * width) =~= items[i]);
    }
}

proof fn lemma_flat_len(items: Seq<Seq<u8>>, width: nat)
    requires
        forall|k: int| 0 <= k < items.len() ==> (#[trigger] items[k]).len() == width,
    ensures
        flat(items).len() == items.len() * width,
    decreases items.len(),
{
    if items.len() > 0 {
        let head = items.drop_last();
        assert forall|k: int| 0 <= k < head.len() implies (#[trigger] head[k]).len() == width by {
            assert(head[k] == items[k]);
        }
        lemma_flat_len(head, width);
        assert(items[items.len() - 1].len() == width);
        assert(items.len() * width == head.len() * width + width) by (nonlinear_arith)
            requires
                items.len() == head.len() + 1,
        ;
    } else {
        assert(items.len() * width == 0) by (nonlinear_arith)
            requires
                items.len() == 0,
        ;
    }
}

/// Behind the length of a list of numbers, the eight bytes of each number follow each
/// other in order.
pub proof fn law_numbers_argument(v: Vec<u64>, cap: Option<ObjectView>, i: int)
    requires
        0 <= i < v@.len(),
    ensures
        argument_input(CallArg::PureU64Vec(v)@, cap) matches Ok(TxInput::Pure(bytes)) && {
            let at = uleb128(v@.len()).len() + 8 * i;
            &&& uleb128(v@.len()).is_prefix_of(bytes)
            &&& bytes.len() == uleb128(v@.len()).len() + 8 * v@.len()
            &&& le_value(bytes.subrange(at, at + 8)) == v@[i]
        },
{
    let items = Seq::new(v@.len(), |k: int| bcs_u64(v@[k]));
    let prefix = uleb128(v@.len());
    let bytes = bcs_u64_vector(v@);
    assert forall|k: int| 0 <= k < items.len() implies (#[trigger] items[k]).len() == 8 by {
        lemma_le_value(v@[k] as nat, 8);
    }
    lemma_flat(items, 8, i);
    law_number_argument(v@[i], cap);
    let at = prefix.len() + 8 * i;
    assert(bytes =~= prefix + flat(items));
    assert(bytes.subrange(at, at + 8) =~= flat(items).subrange(i * 8, (i + 1) * 8));
}

/// Behind the length of a list of ids, the 32 bytes of each id follow each other in order;
/// one id that is no address spoils the list.
pub proof fn law_ids_argument(ids: Vec<String>, cap: Option<ObjectView>, i: int)
    requires
        0 <= i < ids@.len(),
    ensures
        address(ids@[i]@) is None ==> argument_input(CallArg::PureObjectIdVec(ids)@, cap) == Err::<
            TxInput,
            TxErrorView,
        >(TxErrorView::BadOracleId),
        argument_input(CallArg::PureObjectIdVec(ids)@, cap) matches Ok(input) ==> (
        input matches TxInput::Pure(bytes) && {
            let at = uleb128(ids@.len()).len() + 32 * i;
            &&& uleb128(ids@.len()).is_prefix_of(bytes)
            &&& bytes.len() == uleb128(ids@.len()).len() + 32 * ids@.len()
            &&& address(ids@[i]@) == Some(bytes.subrange(at, at + 32))
        }),
{
    let texts = view_all(ids@);
    assert(texts[i] == ids@[i]@);
    match all_addresses(texts) {
        Some(items) => {
            let prefix = uleb128(ids@.len());
            let bytes = bcs_vector(items);
            assert forall|k: int| 0 <= k < items.len() implies (#[trigger] items[k]).len()
                == 32 by {
                assert(address(texts[k]) is Some);
            }
            lemma_flat(items, 32, i);
            assert(address(texts[i]) == Some(items[i]));
            let at = prefix.len() + 32 * i;
            assert(bytes =~= prefix + flat(items));
            assert(bytes.subrange(at, at + 32) =~= flat(items).subrange(i * 32, (i + 1) * 32));
        },
        None => {},
    }
}

/// Of the coins, the one that pays is no smaller than any other, and larger than all that
/// come after it.
pub proof fn law_last_of_the_largest_pays(coins: Seq<GasCoinView>, i: int)
    requires
        0 <= i < coins.len(),
        forall|k: int| 0 <= k < coins.len() ==> (#[trigger] coins[k]).balance <= coins[i].balance,
        forall|k: int| i < k < coins.len() ==> (#[trigger] coins[k]).balance < coins[i].balance,
    ensures
        largest(coins) == i,
{
    lemma_largest(coins);
    assert(coins[largest(coins)].balance <= coins[i].balance);
}

proof fn lemma_place_draft(c: CallView, cap: Option<ObjectView>, n: nat)
    ensures
        place_many(c, cap, n) matches Ok(d) ==> d.draft == (Draft {
            inputs: d.draft.inputs,
            ..c.draft
        }),
    decreases n,
{
    if n > 0 {
        lemma_place_draft(c, cap, (n - 1) as nat);
    }
}

/// A transaction that comes of a call is one call of the function in the module
/// `apex_pool` of the package, with one input for each argument, as the argument wants it.
/// The keeper sends it and pays with its largest coin, at most a tenth of a SUI, at the
/// price that was fetched.
pub proof fn law_transaction_is_the_call(
    package: Seq<u8>,
    function: Seq<char>,
    args: Seq<CallArgView>,
    cap: ObjectView,
    sender: Seq<u8>,
    coins: Seq<GasCoinView>,
    i: int,
    price: u64,
)
    requires
        run(new_call(package, function, args), cap) is Ok,
        0 <= i < coins.len(),
        forall|k: int| 0 <= k < coins.len() ==> (#[trigger] coins[k]).balance <= coins[i].balance,
        forall|k: int| i < k < coins.len() ==> (#[trigger] coins[k]).balance < coins[i].balance,
        address(coins[i].id) is Some,
        digest(coins[i].digest) is Some,
    ensures
        paid(run(new_call(package, function, args), cap)->Ok_0, sender, coins) matches Ok(p) && {
            let t = priced(p.draft, price, sender);
            &&& t.call matches Some(m) && m.package == package && m.module == "apex_pool"@
                && m.function == function && m.args.len() == args.len() && forall|k: int|
                0 <= k < args.len() ==> argument_input(#[trigger] args[k], Some(cap)) is Ok && serves(
                    t.inputs[m.args[k]],
                    argument_input(args[k], Some(cap))->Ok_0,
                )
            &&& t.gas.len() == 1
            &&& Some(t.gas[0].id) == address(coins[i].id)
            &&& t.gas[0].version == coins[i].version
            &&& Some(t.gas[0].digest) == digest(coins[i].digest)
            &&& t.sender == Some(sender)
            &&& t.price == Some(price)
            &&& t.budget matches Some(b) && b == 100_000_000
        },
{
    let c = new_call(package, function, args);
    law_arguments_are_placed_in_order(c, cap);
    let n = args.len();
    law_arguments_keep_their_inputs(c, Some(cap), n);
    lemma_place_frame(c, Some(cap), n);
    lemma_place_draft(c, Some(cap), n);
    law_last_of_the_largest_pays(coins, i);
    let d = place_many(c, Some(cap), n)->Ok_0;
    assert forall|k: int| 0 <= k < n implies argument_input(#[trigger] args[k], Some(cap)) is Ok
        && serves(
        d.draft.inputs[d.placed[k]],
        argument_input(args[k], Some(cap))->Ok_0,
    ) by {
        assert(0 <= d.placed[k] < d.draft.inputs.len());
        assert(d.args[k] == args[k]);
    }
    let done = run(c, cap);
    assert(done == aimed(d));
    let p = paid(done->Ok_0, sender, coins)->Ok_0;
    let t = priced(p.draft, price, sender);
    assert(t.inputs == d.draft.inputs);
    assert(t.call->0.args == d.placed);
    assert(t.gas =~= seq![p.draft.gas.last()]);
}

/// A call of something that is no function name is refused once its arguments are placed,
/// and one without coins cannot be paid for.
pub proof fn law_calls_are_refused(c: CallView, sender: Seq<u8>)
    ensures
        !identifier(c.function) ==> aimed(c) == Err::<CallView, TxErrorView>(
            TxErrorView::BadFunctionName,
        ),
        identifier(c.function) ==> aimed(c) is Ok,
        paid(c, sender, Seq::<GasCoinView>::empty()) == Err::<CallView, TxErrorView>(
            TxErrorView::NoGasCoins(sender),
        ),
{
}

/// What is sent is the transaction itself, in Base64, with the signature of the key on
/// that transaction; if either cannot be had, nothing is sent.
pub proof fn law_signature_is_on_the_transaction(d: Draft, key: Seq<u8>)
    ensures
        signed(d, key) matches Ok(s) ==> {
            &&& transaction_bcs(d) is Some
            &&& s.tx_bytes == base64_text(transaction_bcs(d)->0)
            &&& transaction_signature(key, d) == Ok::<Seq<char>, Seq<char>>(s.signature)
        },
        signed(d, key) is Ok <==> transaction_bcs(d) is Some && transaction_signature(key, d) is Ok,
{
}

/// What is said of a call that failed.
pub proof fn law_failed_calls_say_why(a: Seq<u8>, e: Seq<char>)
    ensures
        tx_error_text(TxErrorView::BadPackageId) == "bad package id"@,
        tx_error_text(TxErrorView::BadSharedObjectId) == "bad shared object id"@,
        tx_error_text(TxErrorView::BadKeeperCapId) == "bad keeper cap id"@,
        tx_error_text(TxErrorView::BadKeeperCapDigest) == "bad keeper cap digest"@,
        tx_error_text(TxErrorView::BadOracleId) == "bad oracle id"@,
        tx_error_text(TxErrorView::BadFunctionName) == "bad function name"@,
        address_digits(a).len() == 2 + 2 * a.len(),
        tx_error_text(TxErrorView::NoGasCoins(a)).subrange(
            15,
            15 + address_digits(a).len() as int,
        ) == address_digits(a),
        e.is_suffix_of(tx_error_text(TxErrorView::Build(e))),
        e.is_suffix_of(tx_error_text(TxErrorView::Signing(e))),
        e.is_suffix_of(key_error_text(KeyErrorView::Bech32(e))),
{
    reveal_strlit("keeper address ");
    assert("keeper address "@.len() == 15);
    assert(tx_error_text(TxErrorView::NoGasCoins(a)).subrange(
        15,
        15 + address_digits(a).len() as int,
    ) =~= address_digits(a));
}

/// The keeper acts under the address that belongs to the public key of its private key.
pub proof fn law_signer_acts_under_its_own_address(s: KeeperSigner)
    requires
        s.wf(),
    ensures
        s.account() == ed25519_address(ed25519_public_key(s.key())),
{
}

/// Ids that are all addresses are handed over, however many there are.
pub proof fn law_good_ids_are_handed_over(ids: Vec<String>, cap: Option<ObjectView>)
    requires
        forall|i: int| 0 <= i < ids@.len() ==> address((#[trigger] ids@[i])@) is Some,
    ensures
        argument_input(CallArg::PureObjectIdVec(ids)@, cap) is Ok,
{
    let texts = view_all(ids@);
    assert forall|i: int| 0 <= i < texts.len() implies address(#[trigger] texts[i]) is Some by {
        assert(texts[i] == ids@[i]@);
    }
}

/// Only lists can be too long to be handed over, and only beyond 2^31 - 1 elements. With
/// arguments that fit, a call is in order from its start.
pub proof fn law_arguments_that_fit(
    n: u64,
    numbers: Seq<u64>,
    ids: Seq<Seq<char>>,
    package: Seq<u8>,
    function: Seq<char>,
    args: Seq<CallArgView>,
)
    ensures
        fits(CallArgView::PureU64Vec(numbers)) <==> numbers.len() <= 0x7fff_ffff,
        fits(CallArgView::PureObjectIdVec(ids)) <==> ids.len() <= 0x7fff_ffff,
        fits(CallArgView::PureU64(n)),
        fits(CallArgView::ClockRef),
        fits(CallArgView::OwnedKeeperCap),
        fits(CallArgView::SharedMut { id: function, initial_version: n }),
        fits(CallArgView::SharedRef { id: function, initial_version: n }),
        args.len() <= 65_535 && (forall|i: int| 0 <= i < args.len() ==> fits(#[trigger] args[i]))
            <==> call_wf(new_call(package, function, args)),
{
}

/// What is said of a key that cannot be read, and of a coin, a transaction and a signature
/// that cannot be had.
pub proof fn law_failures_are_worded(e: Seq<char>, b: u8, n: nat)
    ensures
        key_error_text(KeyErrorView::Bech32(e)) == "invalid suiprivkey bech32: "@ + e,
        key_error_text(KeyErrorView::WrongPrefix) == "expected 'suiprivkey' HRP"@,
        key_error_text(KeyErrorView::Empty) == "suiprivkey payload is empty"@,
        key_error_text(KeyErrorView::WrongFlag(b)) == "expected Ed25519 flag 0x00, got "@
            + hex_byte(b),
        key_error_text(KeyErrorView::WrongLength(n as int))
            == "Ed25519 key must be 32 bytes, got "@ + decimal(n as int),
        tx_error_text(TxErrorView::BadCoinId)
            == "Unable to parse Address (must be hex string of length 32)"@,
        tx_error_text(TxErrorView::BadCoinDigest)
            == "Unable to parse Digest (must be Base58 string of length 32)"@,
        tx_error_text(TxErrorView::Build(e)) == "PTB build failed: "@ + e,
        tx_error_text(TxErrorView::Serialize) == "bcs serialize tx"@,
        tx_error_text(TxErrorView::Signing(e)) == "signing failed: "@ + e,
{
}

} // verus!
