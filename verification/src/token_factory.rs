use vstd::prelude::*;
use crate::types::string_from_chars;

verus! {

/// Largest protobuf field tag.
pub const MAX_TAG: u32 = 536_870_911;

/// Protobuf wire types the token-factory messages use.
#[derive(Clone, Copy, Debug, PartialEq, Eq, Structural)]
pub enum WireKind {
    Varint,
    LengthDelimited,
}

pub open spec fn wire_code(w: WireKind) -> int {
    match w {
        WireKind::Varint => 0,
        WireKind::LengthDelimited => 2,
    }
}

/// LEB128: seven bits per byte, least significant group first, the high bit set
/// on every byte but the last.
pub open spec fn leb128(v: u64) -> Seq<u8>
    decreases v,
{
    if v < 128 {
        seq![v as u8]
    } else {
        seq![((v % 128) + 128) as u8] + leb128(v / 128)
    }
}

/// A field key: the tag shifted past the three wire-type bits.
pub open spec fn key_bytes(tag: u32, w: WireKind) -> Seq<u8> {
    leb128((tag * 8 + wire_code(w)) as u64)
}

/// A length-delimited field holding `bytes`.
pub open spec fn delimited_field(tag: u32, bytes: Seq<u8>) -> Seq<u8> {
    key_bytes(tag, WireKind::LengthDelimited) + leb128(bytes.len() as u64) + bytes
}

/// The UTF-8 bytes of a string.
pub open spec fn utf8(s: String) -> Seq<u8> {
    vstd::utf8::encode_utf8(s@)
}

/// Calls `prost::encoding::encode_varint`, which appends `value` in LEB128.
#[verifier::external_body]
fn put_varint(value: u64, buf: &mut Vec<u8>)
    ensures
        final(buf)@ == old(buf)@ + leb128(value),
{
    prost::encoding::encode_varint(value, buf)
}

/// Calls `prost::encoding::encode_key`, which appends the varint
/// `(tag << 3) | wire_type`.
#[verifier::external_body]
fn put_key(tag: u32, wire: WireKind, buf: &mut Vec<u8>)
    requires
        1 <= tag <= MAX_TAG,
    ensures
        final(buf)@ == old(buf)@ + key_bytes(tag, wire),
{
    let w = match wire {
        WireKind::Varint => prost::encoding::WireType::Varint,
        WireKind::LengthDelimited => prost::encoding::WireType::LengthDelimited,
    };
    prost::encoding::encode_key(tag, w, buf)
}

/// Calls `prost::encoding::string::encode`, which appends a length-delimited field
/// with the string's UTF-8 bytes.
#[verifier::external_body]
fn put_string_field(tag: u32, value: &String, buf: &mut Vec<u8>)
    requires
        1 <= tag <= MAX_TAG,
    ensures
        final(buf)@ == old(buf)@ + delimited_field(tag, utf8(*value)),
{
    prost::encoding::string::encode(tag, value, buf)
}

/// Calls `prost::encoding::bool::encode`, which appends a varint field holding
/// one for true and zero for false.
#[verifier::external_body]
fn put_bool_field(tag: u32, value: bool, buf: &mut Vec<u8>)
    requires
        1 <= tag <= MAX_TAG,
    ensures
        final(buf)@ == old(buf)@ + key_bytes(tag, WireKind::Varint) + leb128(if value { 1 } else { 0 }),
{
    prost::encoding::bool::encode(tag, &value, buf)
}

/// A proto3 string field: left out when empty.
pub open spec fn plain_string(tag: u32, s: String) -> Seq<u8> {
    if s@.len() == 0 { Seq::empty() } else { delimited_field(tag, utf8(s)) }
}

/// An optional string field: left out when absent.
pub open spec fn optional_string(tag: u32, s: Option<String>) -> Seq<u8> {
    match s {
        Some(v) => delimited_field(tag, utf8(v)),
        None => Seq::empty(),
    }
}

/// A proto3 bool field: left out when false.
pub open spec fn plain_bool(tag: u32, b: bool) -> Seq<u8> {
    if b { key_bytes(tag, WireKind::Varint) + leb128(1) } else { Seq::empty() }
}

fn put_plain_string(tag: u32, s: &String, buf: &mut Vec<u8>)
    requires
        1 <= tag <= MAX_TAG,
    ensures
        final(buf)@ == old(buf)@ + plain_string(tag, *s),
{
    if s.as_str().unicode_len() != 0 {
        put_string_field(tag, s, buf);
    } else {
        assert(old(buf)@ + plain_string(tag, *s) =~= old(buf)@);
    }
}

fn put_optional_string(tag: u32, s: &Option<String>, buf: &mut Vec<u8>)
    requires
        1 <= tag <= MAX_TAG,
    ensures
        final(buf)@ == old(buf)@ + optional_string(tag, *s),
{
    match s {
        Some(v) => put_string_field(tag, v, buf),
        None => {
            assert(old(buf)@ + optional_string(tag, *s) =~= old(buf)@);
        },
    }
}

/// Creates a TokenFactory denom.
#[derive(Clone, Debug)]
pub struct MsgCreateDenom {
    pub sender: String,
    pub subdenom: String,
    pub minting_cap: Option<String>,
    pub can_change_minting_cap: bool,
    pub uri: Option<String>,
    pub uri_hash: Option<String>,
    pub description: Option<String>,
}

#[derive(Clone, Debug)]
pub struct Coin {
    pub denom: String,
    pub amount: String,
}

/// Mints tokens and sends them to a recipient.
#[derive(Clone, Debug)]
pub struct MsgMintAndSendTokens {
    pub signer: String,
    pub token: Option<Coin>,
    pub recipient: String,
}

/// Burns tokens held by the signer.
#[derive(Clone, Debug)]
pub struct MsgBurnTokens {
    pub signer: String,
    pub token: Option<Coin>,
}

/// A chain message given as a protobuf type URL and the encoded message.
#[derive(Clone, Debug)]
pub struct StargateMsg {
    pub type_url: String,
    pub value: Vec<u8>,
}

pub open spec fn create_denom_bytes(m: MsgCreateDenom) -> Seq<u8> {
    plain_string(1, m.sender) + plain_string(2, m.subdenom) + optional_string(3, m.minting_cap)
        + plain_bool(4, m.can_change_minting_cap) + optional_string(5, m.uri) + optional_string(6, m.uri_hash)
        + optional_string(7, m.description)
}

pub open spec fn coin_bytes(c: Coin) -> Seq<u8> {
    plain_string(1, c.denom) + plain_string(2, c.amount)
}

/// An optional embedded message field: left out when absent.
pub open spec fn token_field(tag: u32, token: Option<Coin>) -> Seq<u8> {
    match token {
        Some(c) => delimited_field(tag, coin_bytes(c)),
        None => Seq::empty(),
    }
}

pub open spec fn mint_and_send_bytes(m: MsgMintAndSendTokens) -> Seq<u8> {
    plain_string(1, m.signer) + token_field(2, m.token) + plain_string(3, m.recipient)
}

pub open spec fn burn_bytes(m: MsgBurnTokens) -> Seq<u8> {
    plain_string(1, m.signer) + token_field(2, m.token)
}

/// Encodes a `MsgCreateDenom` in protobuf, fields in tag order.
pub fn encode_create_denom(m: &MsgCreateDenom) -> (bytes: Vec<u8>)
    ensures
        bytes@ == create_denom_bytes(*m),
{
    let mut buf: Vec<u8> = Vec::new();
    put_plain_string(1, &m.sender, &mut buf);
    put_plain_string(2, &m.subdenom, &mut buf);
    put_optional_string(3, &m.minting_cap, &mut buf);
    if m.can_change_minting_cap {
        put_bool_field(4, true, &mut buf);
    }
    put_optional_string(5, &m.uri, &mut buf);
    put_optional_string(6, &m.uri_hash, &mut buf);
    put_optional_string(7, &m.description, &mut buf);
    assert(buf@ =~= create_denom_bytes(*m));
    buf
}

pub fn encode_coin(c: &Coin) -> (bytes: Vec<u8>)
    ensures
        bytes@ == coin_bytes(*c),
{
    let mut buf: Vec<u8> = Vec::new();
    put_plain_string(1, &c.denom, &mut buf);
    put_plain_string(2, &c.amount, &mut buf);
    assert(buf@ =~= coin_bytes(*c));
    buf
}

fn put_token_field(tag: u32, token: &Option<Coin>, buf: &mut Vec<u8>)
    requires
        1 <= tag <= MAX_TAG,
    ensures
        final(buf)@ == old(buf)@ + token_field(tag, *token),
{
    match token {
        Some(c) => {
            let body = encode_coin(c);
            put_key(tag, WireKind::LengthDelimited, buf);
            put_varint(body.len() as u64, buf);
            let ghost before = buf@;
            let mut i: usize = 0;
            while i < body.len()
                invariant
                    i <= body@.len(),
                    buf@ =~= before + body@.subrange(0, i as int),
                decreases body@.len() - i,
            {
                buf.push(body[i]);
                i = i + 1;
            }
            assert(body@.subrange(0, body@.len() as int) =~= body@);
            assert(buf@ =~= old(buf)@ + token_field(tag, *token));
        },
        None => {
            assert(old(buf)@ + token_field(tag, *token) =~= old(buf)@);
        },
    }
}

/// Encodes a `MsgMintAndSendTokens` in protobuf, fields in tag order.
pub fn encode_mint_and_send(m: &MsgMintAndSendTokens) -> (bytes: Vec<u8>)
    ensures
        bytes@ == mint_and_send_bytes(*m),
{
    let mut buf: Vec<u8> = Vec::new();
    put_plain_string(1, &m.signer, &mut buf);
    put_token_field(2, &m.token, &mut buf);
    put_plain_string(3, &m.recipient, &mut buf);
    assert(buf@ =~= mint_and_send_bytes(*m));
    buf
}

/// Encodes a `MsgBurnTokens` in protobuf, fields in tag order.
pub fn encode_burn(m: &MsgBurnTokens) -> (bytes: Vec<u8>)
    ensures
        bytes@ == burn_bytes(*m),
{
    let mut buf: Vec<u8> = Vec::new();
    put_plain_string(1, &m.signer, &mut buf);
    put_token_field(2, &m.token, &mut buf);
    assert(buf@ =~= burn_bytes(*m));
    buf
}

fn text(chars: &str) -> (s: String)
    ensures
        s@ == chars@,
{
    let t = chars.to_string();
    proof {
        broadcast use vstd::string::to_string_from_display_ensures_for_str;
    }
    t
}

/// A message creating the LP denom, with the minting cap given.
pub fn create_denom_msg(
    creator: String,
    subdenom: String,
    minting_cap: String,
    can_change_minting_cap: bool,
    uri: Option<String>,
    uri_hash: Option<String>,
    description: Option<String>,
) -> (msg: StargateMsg)
    ensures
        msg.type_url@ == "/zigchain.factory.MsgCreateDenom"@,
        msg.value@ == create_denom_bytes(MsgCreateDenom {
            sender: creator,
            subdenom,
            minting_cap: Some(minting_cap),
            can_change_minting_cap,
            uri,
            uri_hash,
            description,
        }),
{
    let m = MsgCreateDenom {
        sender: creator,
        subdenom,
        minting_cap: Some(minting_cap),
        can_change_minting_cap,
        uri,
        uri_hash,
        description,
    };
    StargateMsg { type_url: text("/zigchain.factory.MsgCreateDenom"), value: encode_create_denom(&m) }
}

/// A message minting `amount` of `denom` to `recipient`.
pub fn mint_and_send_tokens_msg(signer: String, denom: String, amount: String, recipient: String) -> (msg: StargateMsg)
    ensures
        msg.type_url@ == "/zigchain.factory.MsgMintAndSendTokens"@,
        msg.value@ == mint_and_send_bytes(MsgMintAndSendTokens {
            signer,
            token: Some(Coin { denom, amount }),
            recipient,
        }),
{
    let m = MsgMintAndSendTokens { signer, token: Some(Coin { denom, amount }), recipient };
    StargateMsg { type_url: text("/zigchain.factory.MsgMintAndSendTokens"), value: encode_mint_and_send(&m) }
}

/// A message burning `amount` of `denom` held by the signer.
pub fn burn_tokens_msg(signer: String, denom: String, amount: String) -> (msg: StargateMsg)
    ensures
        msg.type_url@ == "/zigchain.factory.MsgBurnTokens"@,
        msg.value@ == burn_bytes(MsgBurnTokens { signer, token: Some(Coin { denom, amount }) }),
{
    let m = MsgBurnTokens { signer, token: Some(Coin { denom, amount }) };
    StargateMsg { type_url: text("/zigchain.factory.MsgBurnTokens"), value: encode_burn(&m) }
}

/// An amount in base ten, as token amounts travel in these messages.
pub fn amount_text(n: u128) -> (s: String)
    ensures
        s@ == crate::math::decimal(n as nat),
{
    let digits = crate::math::to_decimal(n);
    string_from_chars(&digits)
}

} // verus!
