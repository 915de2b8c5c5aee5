use terraland::error::ContractError;
use terraland::math::{mul_decimal, Decimal, DECIMAL_FRACTIONAL};
use terraland::payment::{Coin, MessageInfo};
use terraland::response::Payout;
use terraland::token::contract::{
    calculate_fee_amount, execute_send, execute_update_config, execute_withdraw_locked_funds,
    migrate, query_swap_fee_config, split_send, swap_fee, transfer, update_swap_fee_config,
    SendAmounts, MAX_HOOK_MSG_LEN,
};
use terraland::token::logo::{
    logo_info, verify_logo, verify_png_logo, verify_xml_logo, verify_xml_preamble, EmbeddedLogo,
    Logo, LogoInfo,
};
use terraland::token::querier::{compute_tax, deduct_tax};
use terraland::token::state::{Config, SwapFeeConfig};

const PNG_HEADER: [u8; 8] = [0x89, b'P', b'N', b'G', 0x0d, 0x0a, 0x1a, 0x0a];

fn percent(n: u128) -> Decimal {
    Decimal { atomics: n * DECIMAL_FRACTIONAL }
}

fn fee_config(enabled: bool, fee: Decimal) -> SwapFeeConfig {
    SwapFeeConfig {
        fee_admin: "admin".into(),
        enable_swap_fee: enabled,
        swap_percent_fee: fee,
        fee_receiver: "receiver".into(),
    }
}

fn info(sender: &str) -> MessageInfo {
    MessageInfo { sender: sender.into(), funds: vec![] }
}

#[test]
fn xml_preamble() {
    assert!(verify_xml_preamble(b"<?xml version=\"1.0\"?><svg></svg>").is_ok());
    assert!(verify_xml_preamble(b"<?xml ?>").is_ok());
    for bad in [
        &b""[..],
        b"<?xml ",
        b"<?xml version=\"1.0\"",
        b"<?xml>",
        b"<?xml version>",
        b"<?xmlversion?>",
        b" <?xml version?>",
        b"<svg><?xml version?></svg>",
        b"?>",
        b">",
    ] {
        assert!(matches!(verify_xml_preamble(bad), Err(ContractError::InvalidXmlPreamble)));
    }
}

#[test]
fn xml_logo_size() {
    let mut logo = b"<?xml version=\"1.0\"?>".to_vec();
    logo.resize(5 * 1024, b' ');
    assert!(verify_xml_logo(&logo).is_ok());
    logo.push(b' ');
    assert!(matches!(verify_xml_logo(&logo), Err(ContractError::LogoTooBig)));
    let mut bad = vec![b' '; 6 * 1024];
    bad[0] = b'<';
    assert!(matches!(verify_xml_logo(&bad), Err(ContractError::InvalidXmlPreamble)));
}

#[test]
fn png_logo() {
    assert!(verify_png_logo(&PNG_HEADER).is_ok());
    let mut logo = PNG_HEADER.to_vec();
    logo.resize(5 * 1024, 0);
    assert!(verify_png_logo(&logo).is_ok());
    logo.push(0);
    assert!(matches!(verify_png_logo(&logo), Err(ContractError::LogoTooBig)));
    assert!(matches!(verify_png_logo(&PNG_HEADER[..7]), Err(ContractError::InvalidPngHeader)));
    assert!(matches!(verify_png_logo(b""), Err(ContractError::InvalidPngHeader)));
    let mut wrong = PNG_HEADER.to_vec();
    wrong[7] = 0x0b;
    assert!(matches!(verify_png_logo(&wrong), Err(ContractError::InvalidPngHeader)));
    assert!(matches!(verify_png_logo(&vec![0; 6 * 1024]), Err(ContractError::LogoTooBig)));
}

#[test]
fn logos_of_every_kind() {
    assert!(verify_logo(&Logo::Url("anything".into())).is_ok());
    assert!(verify_logo(&Logo::Embedded(EmbeddedLogo::Png(PNG_HEADER.to_vec()))).is_ok());
    assert!(matches!(
        verify_logo(&Logo::Embedded(EmbeddedLogo::Svg(PNG_HEADER.to_vec()))),
        Err(ContractError::InvalidXmlPreamble)
    ));
    assert!(verify_logo(&Logo::Embedded(EmbeddedLogo::Svg(b"<?xml v?>".to_vec()))).is_ok());
    assert!(matches!(
        verify_logo(&Logo::Embedded(EmbeddedLogo::Png(b"<?xml v?>".to_vec()))),
        Err(ContractError::InvalidPngHeader)
    ));
    assert!(matches!(logo_info(Logo::Url("link".into())), LogoInfo::Url(url) if url == "link"));
    assert!(matches!(logo_info(Logo::Embedded(EmbeddedLogo::Png(vec![]))), LogoInfo::Embedded));
}

#[test]
fn decimal_products_are_rounded_down() {
    assert_eq!(mul_decimal(1_000, percent(5)), Some(5_000));
    assert_eq!(mul_decimal(1_000, Decimal { atomics: DECIMAL_FRACTIONAL / 3 }), Some(333));
    assert_eq!(mul_decimal(0, Decimal { atomics: u128::MAX }), Some(0));
    assert_eq!(mul_decimal(u128::MAX, Decimal { atomics: 0 }), Some(0));
    assert_eq!(mul_decimal(u128::MAX, percent(1)), Some(u128::MAX));
    assert_eq!(mul_decimal(u128::MAX, Decimal { atomics: DECIMAL_FRACTIONAL + 1 }), None);
    assert_eq!(
        mul_decimal(u128::MAX, Decimal { atomics: DECIMAL_FRACTIONAL / 2 }),
        Some(u128::MAX / 2)
    );
    assert_eq!(
        mul_decimal(123_456_789_012_345_678_901_234_567_890, Decimal { atomics: 987_654_321_098_765_432 }),
        Some(121_932_631_137_021_795_212_620_027_521)
    );
    assert_eq!(mul_decimal(3, Decimal { atomics: u128::MAX }), Some(1_020_847_100_762_815_390_390));
    assert_eq!(mul_decimal(u128::MAX, Decimal { atomics: u128::MAX }), None);
    assert_eq!(mul_decimal(DECIMAL_FRACTIONAL + 1, Decimal { atomics: u128::MAX }), None);
    assert_eq!(mul_decimal(DECIMAL_FRACTIONAL, Decimal { atomics: u128::MAX }), Some(u128::MAX));
    assert_eq!(
        mul_decimal(2, Decimal { atomics: u128::MAX }),
        Some(680_564_733_841_876_926_926)
    );
}

#[test]
fn the_swap_fee_is_a_percentage_of_swaps() {
    let cfg = fee_config(true, percent(3));
    assert_eq!(swap_fee(1_050, true, &cfg).unwrap(), 31);
    assert_eq!(swap_fee(1_050, false, &cfg).unwrap(), 0);
    assert_eq!(swap_fee(1_050, true, &fee_config(false, percent(3))).unwrap(), 0);
    assert_eq!(swap_fee(u128::MAX, true, &fee_config(true, percent(1))).unwrap(), u128::MAX / 100);
    assert!(matches!(swap_fee(u128::MAX, true, &cfg), Err(ContractError::Overflow)));
    assert_eq!(swap_fee(u128::MAX, false, &cfg).unwrap(), 0);
}

#[test]
fn only_swap_messages_pay_the_fee() {
    let cfg = fee_config(true, percent(3));
    let swap = br#"{"swap":{"belief_price":null,"max_spread":"0.1","to":null}}"#.to_vec();
    assert_eq!(calculate_fee_amount(1_050, &swap, &cfg).unwrap(), 31);
    let bare = br#"{"swap":{}}"#.to_vec();
    assert_eq!(calculate_fee_amount(1_050, &bare, &cfg).unwrap(), 31);
    let withdraw = br#"{"withdraw_liquidity":{}}"#.to_vec();
    assert_eq!(calculate_fee_amount(1_050, &withdraw, &cfg).unwrap(), 0);
    assert_eq!(calculate_fee_amount(1_050, &b"swap".to_vec(), &cfg).unwrap(), 0);
    assert_eq!(calculate_fee_amount(1_050, &vec![], &cfg).unwrap(), 0);
    assert_eq!(calculate_fee_amount(1_050, &swap, &fee_config(false, percent(3))).unwrap(), 0);
}

#[test]
fn a_send_is_split_into_fee_and_rest() {
    let swap = br#"{"swap":{}}"#.to_vec();
    let other = br#"{"stake":{}}"#.to_vec();
    let cfg = fee_config(true, percent(3));
    assert_eq!(execute_send(1_050, &swap, Some(&cfg)).unwrap(), SendAmounts { fee: 31, send: 1_019 });
    assert_eq!(execute_send(1_050, &other, Some(&cfg)).unwrap(), SendAmounts { fee: 0, send: 1_050 });
    assert_eq!(execute_send(1_050, &swap, None).unwrap(), SendAmounts { fee: 0, send: 1_050 });
    assert_eq!(execute_send(10, &swap, Some(&cfg)).unwrap(), SendAmounts { fee: 0, send: 10 });
    let greedy = fee_config(true, percent(10_001));
    assert!(matches!(execute_send(100, &swap, Some(&greedy)), Err(ContractError::Underflow)));
    assert_eq!(split_send(10, 10).unwrap(), SendAmounts { fee: 10, send: 0 });
    assert!(matches!(split_send(10, 11), Err(ContractError::Underflow)));
}

#[test]
fn transfers_move_balances() {
    assert_eq!(transfer(10, 5, 4).unwrap(), (6, 9));
    assert_eq!(transfer(10, 0, 10).unwrap(), (0, 10));
    assert!(matches!(transfer(10, 5, 0), Err(ContractError::InvalidZeroAmount)));
    assert!(matches!(transfer(10, 5, 11), Err(ContractError::Underflow)));
    assert!(matches!(transfer(10, u128::MAX, 1), Err(ContractError::Overflow)));
}

#[test]
fn tax_is_what_the_rate_takes_up_to_the_cap() {
    let luna = Coin { denom: "uluna".into(), amount: 1_000_000 };
    let rate = Decimal { atomics: DECIMAL_FRACTIONAL / 100 };
    assert_eq!(compute_tax(&luna, rate, 5).unwrap(), 0);
    let usd = Coin { denom: "uusd".into(), amount: 1_000_000 };
    // 1_000_000 - 1_000_000 / 1.01 = 1_000_000 - 990_099
    assert_eq!(compute_tax(&usd, rate, 50_000).unwrap(), 9_901);
    assert_eq!(compute_tax(&usd, rate, 5_000).unwrap(), 5_000);
    assert_eq!(compute_tax(&usd, Decimal { atomics: 0 }, 5_000).unwrap(), 0);
    assert!(matches!(
        compute_tax(&usd, Decimal { atomics: u128::MAX }, 5_000),
        Err(ContractError::Overflow)
    ));
    let all = Coin { denom: "uusd".into(), amount: u128::MAX };
    assert_eq!(
        compute_tax(&all, Decimal { atomics: DECIMAL_FRACTIONAL }, u128::MAX).unwrap(),
        u128::MAX - u128::MAX / 2
    );
    // the product of amount and unit leaves u128, the quotient does not
    let big = Coin { denom: "uusd".into(), amount: 1 << 127 };
    assert_eq!(
        compute_tax(&big, Decimal { atomics: 3 * DECIMAL_FRACTIONAL }, u128::MAX).unwrap(),
        (1 << 127) - (1 << 125)
    );
    let left = deduct_tax(usd, rate, 50_000).unwrap();
    assert_eq!(left.denom, "uusd");
    assert_eq!(left.amount, 990_099);
}

#[test]
fn locked_funds_are_withdrawn_less_tax() {
    let cfg = Config { owner: "owner".into() };
    let rate = Decimal { atomics: DECIMAL_FRACTIONAL / 100 };
    assert!(matches!(
        execute_withdraw_locked_funds(&cfg, &info("a"), "uusd".into(), 1_000_000, "a".into(), rate, 5),
        Err(ContractError::Unauthorized)
    ));
    let response = execute_withdraw_locked_funds(
        &cfg,
        &info("owner"),
        "uusd".into(),
        1_000_000,
        "a".into(),
        rate,
        5_000,
    )
    .unwrap();
    match &response.payouts[..] {
        [Payout::Native { denom, recipient, amount }] => {
            assert_eq!(denom, "uusd");
            assert_eq!(recipient, "a");
            assert_eq!(*amount, 995_000);
        }
        _ => panic!("one transfer is asked for"),
    }
}

#[test]
fn the_owner_of_the_token_names_its_heir() {
    let mut cfg = Config { owner: "owner".into() };
    assert!(matches!(
        execute_update_config(&mut cfg, &info("a"), Some("a".into())),
        Err(ContractError::Unauthorized)
    ));
    assert_eq!(cfg.owner, "owner");
    execute_update_config(&mut cfg, &info("owner"), None).unwrap();
    assert_eq!(cfg.owner, "owner");
    execute_update_config(&mut cfg, &info("owner"), Some("heir".into())).unwrap();
    assert_eq!(cfg.owner, "heir");
}

#[test]
fn the_fee_admin_changes_the_swap_fee() {
    assert!(matches!(
        update_swap_fee_config(None, &info("admin"), None, None, None, None),
        Err(ContractError::Unauthorized)
    ));
    assert!(matches!(
        update_swap_fee_config(Some(fee_config(true, percent(3))), &info("a"), None, None, None, None),
        Err(ContractError::Unauthorized)
    ));
    let updated = update_swap_fee_config(
        Some(fee_config(true, percent(3))),
        &info("admin"),
        Some("heir".into()),
        Some(false),
        None,
        None,
    )
    .unwrap();
    assert_eq!(updated.fee_admin, "heir");
    assert!(!updated.enable_swap_fee);
    assert_eq!(updated.swap_percent_fee, percent(3));
    assert_eq!(updated.fee_receiver, "receiver");
    let updated = update_swap_fee_config(
        Some(updated),
        &info("heir"),
        None,
        None,
        Some(percent(4)),
        Some("vault".into()),
    )
    .unwrap();
    assert_eq!(updated.fee_admin, "heir");
    assert_eq!(updated.swap_percent_fee, percent(4));
    assert_eq!(updated.fee_receiver, "vault");
}

#[test]
fn swap_fee_query() {
    let response = query_swap_fee_config(Some(fee_config(true, percent(3))));
    assert_eq!(response.fee_admin, "admin");
    assert!(response.enable_swap_fee);
    assert_eq!(response.swap_percent_fee, percent(3));
    assert_eq!(response.fee_receiver, "receiver");
    let none = query_swap_fee_config(None);
    assert_eq!(none.fee_admin, "");
    assert!(!none.enable_swap_fee);
    assert_eq!(none.swap_percent_fee, Decimal { atomics: 0 });
    assert_eq!(none.fee_receiver, "");
}

#[test]
fn migration_from_another_contract_is_refused() {
    assert!(migrate(&"crates.io:tland-token".to_string()).is_ok());
    match migrate(&"crates.io:cw20-base".to_string()) {
        Err(ContractError::PreviousContract(name)) => assert_eq!(name, "crates.io:cw20-base"),
        _ => panic!("another contract is stored"),
    }
}

#[test]
fn the_longest_message_is_read_however_deep_it_is_nested() {
    let cfg = fee_config(true, percent(3));
    // an unknown field, nested as deep as the length allows and closed again
    let mut closed = br#"{"swap":{"x":"#.to_vec();
    let depth = (MAX_HOOK_MSG_LEN - closed.len() - 2) / 2;
    closed.extend(std::iter::repeat(b'[').take(depth));
    closed.extend(std::iter::repeat(b']').take(depth));
    closed.extend_from_slice(b"}}");
    assert!(closed.len() <= MAX_HOOK_MSG_LEN);
    assert_eq!(calculate_fee_amount(1_050, &closed, &cfg).unwrap(), 31);
    // the same, never closed: no message at all
    let mut open = br#"{"swap":{"x":"#.to_vec();
    open.resize(MAX_HOOK_MSG_LEN, b'[');
    assert_eq!(calculate_fee_amount(1_050, &open, &cfg).unwrap(), 0);
    let mut braces = br#"{"swap":{"x":"#.to_vec();
    braces.resize(MAX_HOOK_MSG_LEN, b'{');
    assert_eq!(calculate_fee_amount(1_050, &braces, &cfg).unwrap(), 0);
    // where no fee is taken no message is read, however long
    let long = vec![b'['; 1_000_000];
    assert_eq!(calculate_fee_amount(1_050, &long, &fee_config(false, percent(3))).unwrap(), 0);
    assert_eq!(
        execute_send(1_050, &long, None).unwrap(),
        SendAmounts { fee: 0, send: 1_050 }
    );
}
