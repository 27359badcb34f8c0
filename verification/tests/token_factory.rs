use defa_protocol::token_factory::{
    amount_text, burn_tokens_msg, create_denom_msg, encode_coin, encode_create_denom, mint_and_send_tokens_msg, Coin,
    MsgCreateDenom,
};

fn s(x: &str) -> String {
    x.to_string()
}

#[test]
fn burn_message_bytes() {
    let msg = burn_tokens_msg(s("ab"), s("d"), s("5"));
    assert_eq!(msg.type_url, "/zigchain.factory.MsgBurnTokens");
    assert_eq!(msg.value, vec![0x0a, 0x02, 0x61, 0x62, 0x12, 0x06, 0x0a, 0x01, 0x64, 0x12, 0x01, 0x35]);
}

#[test]
fn create_denom_message_bytes() {
    let msg = create_denom_msg(s("s"), s("lp"), s("100"), true, None, None, Some(s("")));
    assert_eq!(msg.type_url, "/zigchain.factory.MsgCreateDenom");
    assert_eq!(
        msg.value,
        vec![0x0a, 0x01, 0x73, 0x12, 0x02, 0x6c, 0x70, 0x1a, 0x03, 0x31, 0x30, 0x30, 0x20, 0x01, 0x3a, 0x00]
    );
    // a false flag is left out
    let msg = create_denom_msg(s("s"), s("lp"), s("100"), false, Some(s("u")), None, None);
    assert_eq!(msg.value, vec![0x0a, 0x01, 0x73, 0x12, 0x02, 0x6c, 0x70, 0x1a, 0x03, 0x31, 0x30, 0x30, 0x2a, 0x01, 0x75]);
}

#[test]
fn mint_message_skips_empty_fields() {
    let msg = mint_and_send_tokens_msg(s(""), s(""), s("7"), s("r"));
    assert_eq!(msg.type_url, "/zigchain.factory.MsgMintAndSendTokens");
    assert_eq!(msg.value, vec![0x12, 0x03, 0x12, 0x01, 0x37, 0x1a, 0x01, 0x72]);
}

#[test]
fn long_fields_use_multi_byte_lengths() {
    let long = "x".repeat(200);
    let bytes = encode_coin(&Coin { denom: long.clone(), amount: s("") });
    assert_eq!(&bytes[..3], &[0x0a, 0xc8, 0x01]);
    assert_eq!(bytes.len(), 3 + 200);
}

#[test]
fn empty_message_encodes_to_nothing() {
    let m = MsgCreateDenom {
        sender: s(""),
        subdenom: s(""),
        minting_cap: None,
        can_change_minting_cap: false,
        uri: None,
        uri_hash: None,
        description: None,
    };
    assert!(encode_create_denom(&m).is_empty());
}

#[test]
fn amounts_are_rendered_in_base_ten() {
    assert_eq!(amount_text(0), "0");
    assert_eq!(amount_text(1_234_567), "1234567");
    assert_eq!(amount_text(u128::MAX), u128::MAX.to_string());
}
