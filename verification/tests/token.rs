use le_token::clock::get_current_timestamp;
use le_token::identity::Identity;
use le_token::qr::{account_qr_code, encode_qr_image, generate_qr_code, qr_payload, user_number_label};
use le_token::text::{push_decimal, push_grouped};
use le_token::token_api::{
    exchange_points_to_token, explorer_url, format_supply, get_token_info, ExchangeRequest, TokenInfo,
};
use le_token::token_metadata::{create_metadata_account, update_metadata, TokenMetadata};
use le_token::token_program::{
    process_initialize_mint, process_instruction, process_mint_to, AccountMeta, TokenError,
    TOKEN_DECIMALS, TOKEN_NAME, TOKEN_SYMBOL, TOKEN_TOTAL_SUPPLY,
};
use le_token::{LedgerEngine, LedgerError, UserAccount};

fn id(name: &str) -> Identity {
    Identity::from_slice(name.as_bytes())
}

fn meta(key: &str, owner: &str, is_signer: bool) -> AccountMeta {
    AccountMeta { key: id(key), owner: id(owner), is_signer }
}

fn stored(authority: &str) -> TokenMetadata {
    TokenMetadata {
        name: "Old".to_string(),
        symbol: "OLD".to_string(),
        uri: "https://old.example".to_string(),
        decimals: 9,
        update_authority: id(authority),
    }
}

#[test]
fn token_constants() {
    assert_eq!(TOKEN_NAME, "$LE Token");
    assert_eq!(TOKEN_SYMBOL, "LE");
    assert_eq!(TOKEN_DECIMALS, 9);
    assert_eq!(TOKEN_TOTAL_SUPPLY, 1_000_000_000 * 10u64.pow(9));
}

#[test]
fn initialize_mint_checks_owner_then_signature() {
    let program = id("program");
    let good = vec![
        meta("mint", "program", false),
        meta("authority", "someone", true),
        meta("payer", "someone", false),
    ];
    assert_eq!(process_initialize_mint(&program, &good), Ok(()));
    assert_eq!(process_instruction(&program, &good, &[0]), Ok(()));
    assert_eq!(
        process_initialize_mint(&program, &good[..2]),
        Err(TokenError::NotEnoughAccountKeys)
    );
    let foreign = vec![
        meta("mint", "other", false),
        meta("authority", "someone", false),
        meta("payer", "someone", true),
    ];
    assert_eq!(process_initialize_mint(&program, &foreign), Err(TokenError::IncorrectProgramId));
    let unsigned = vec![
        meta("mint", "program", true),
        meta("authority", "someone", false),
        meta("payer", "someone", true),
    ];
    assert_eq!(
        process_initialize_mint(&program, &unsigned),
        Err(TokenError::MissingRequiredSignature)
    );
}

#[test]
fn mint_to_checks_both_owners_then_signature() {
    let program = id("program");
    let good = vec![
        meta("mint", "program", false),
        meta("destination", "program", false),
        meta("authority", "someone", true),
    ];
    assert_eq!(process_mint_to(&program, &good, 5), Ok(()));
    assert_eq!(process_instruction(&program, &good, &[1, 5, 0, 0, 0, 0, 0, 0, 0]), Ok(()));
    assert_eq!(process_mint_to(&program, &[], 5), Err(TokenError::NotEnoughAccountKeys));
    let foreign_destination = vec![
        meta("mint", "program", false),
        meta("destination", "other", false),
        meta("authority", "someone", false),
    ];
    assert_eq!(
        process_mint_to(&program, &foreign_destination, 5),
        Err(TokenError::IncorrectProgramId)
    );
    let unsigned = vec![
        meta("mint", "program", false),
        meta("destination", "program", true),
        meta("authority", "someone", false),
    ];
    assert_eq!(process_mint_to(&program, &unsigned, 5), Err(TokenError::MissingRequiredSignature));
}

#[test]
fn token_program_refuses_transfers() {
    let program = id("program");
    let good = vec![
        meta("mint", "program", true),
        meta("destination", "program", true),
        meta("authority", "someone", true),
    ];
    assert_eq!(
        process_instruction(&program, &good, &[2, 1, 0, 0, 0, 0, 0, 0, 0]),
        Err(TokenError::InvalidInstructionData)
    );
    assert_eq!(process_instruction(&program, &good, &[]), Err(TokenError::InvalidInstructionData));
    assert_eq!(process_instruction(&program, &good, &[1, 1]), Err(TokenError::InvalidInstructionData));
    assert_eq!(process_instruction(&program, &[], &[9]), Err(TokenError::InvalidInstructionData));
    assert_eq!(process_instruction(&program, &[], &[0]), Err(TokenError::NotEnoughAccountKeys));
}

fn six_accounts(authority_signed: bool, payer_signed: bool) -> Vec<AccountMeta> {
    vec![
        meta("metadata", "system", false),
        meta("mint", "program", false),
        meta("authority", "someone", authority_signed),
        meta("payer", "someone", payer_signed),
        meta("system", "native", false),
        meta("rent", "sysvar", false),
    ]
}

#[test]
fn create_metadata_names_the_mint_authority() {
    let metadata = create_metadata_account(
        &six_accounts(true, true),
        "$LE Token".to_string(),
        "LE".to_string(),
        "https://example.com/le.json".to_string(),
        9,
    )
    .unwrap();
    assert_eq!(metadata.name, "$LE Token");
    assert_eq!(metadata.symbol, "LE");
    assert_eq!(metadata.uri, "https://example.com/le.json");
    assert_eq!(metadata.decimals, 9);
    assert_eq!(metadata.update_authority, id("authority"));
}

#[test]
fn create_metadata_needs_accounts_and_signatures() {
    let text = || "x".to_string();
    assert_eq!(
        create_metadata_account(&six_accounts(true, true)[..5], text(), text(), text(), 0).err(),
        Some(TokenError::NotEnoughAccountKeys)
    );
    assert_eq!(
        create_metadata_account(&six_accounts(false, true), text(), text(), text(), 0).err(),
        Some(TokenError::MissingRequiredSignature)
    );
    assert_eq!(
        create_metadata_account(&six_accounts(true, false), text(), text(), text(), 0).err(),
        Some(TokenError::MissingRequiredSignature)
    );
    assert_eq!(
        create_metadata_account(&six_accounts(false, false)[..2], text(), text(), text(), 0).err(),
        Some(TokenError::NotEnoughAccountKeys)
    );
}

#[test]
fn update_metadata_replaces_what_is_given() {
    let program = id("program");
    let accounts = vec![meta("metadata", "program", false), meta("authority", "someone", true)];
    let updated = update_metadata(
        &program,
        &accounts,
        Some(stored("authority")),
        Some("New".to_string()),
        None,
        Some("https://new.example".to_string()),
    )
    .unwrap();
    assert_eq!(updated.name, "New");
    assert_eq!(updated.symbol, "OLD");
    assert_eq!(updated.uri, "https://new.example");
    assert_eq!(updated.decimals, 9);
    assert_eq!(updated.update_authority, id("authority"));
    let same = update_metadata(&program, &accounts, Some(stored("authority")), None, None, None)
        .unwrap();
    assert_eq!(same.name, "Old");
    assert_eq!(same.symbol, "OLD");
    assert_eq!(same.uri, "https://old.example");
    let symbol_only = update_metadata(
        &program,
        &accounts,
        Some(stored("authority")),
        None,
        Some("NEW".to_string()),
        None,
    )
    .unwrap();
    assert_eq!(symbol_only.name, "Old");
    assert_eq!(symbol_only.symbol, "NEW");
}

#[test]
fn update_metadata_failures_come_in_order() {
    let program = id("program");
    let new = || Some("New".to_string());
    let good = vec![meta("metadata", "program", false), meta("authority", "someone", true)];
    assert_eq!(
        update_metadata(&program, &good[..1], Some(stored("authority")), new(), None, None).err(),
        Some(TokenError::NotEnoughAccountKeys)
    );
    let foreign = vec![meta("metadata", "other", false), meta("authority", "someone", false)];
    assert_eq!(
        update_metadata(&program, &foreign, None, new(), None, None).err(),
        Some(TokenError::IncorrectProgramId)
    );
    let unsigned = vec![meta("metadata", "program", false), meta("authority", "someone", false)];
    assert_eq!(
        update_metadata(&program, &unsigned, None, new(), None, None).err(),
        Some(TokenError::MissingRequiredSignature)
    );
    assert_eq!(
        update_metadata(&program, &good, None, new(), None, None).err(),
        Some(TokenError::UnreadableAccountData)
    );
    assert_eq!(
        update_metadata(&program, &good, Some(stored("another")), new(), None, None).err(),
        Some(TokenError::InvalidAccountData)
    );
}

#[test]
fn exchange_is_switched_off() {
    for (user, admin, amount) in [("alice", "admin_key_1", 0u64), ("bob", "nobody", u64::MAX)] {
        let request =
            ExchangeRequest { user_id: id(user), admin_key: id(admin), points_amount: amount };
        assert_eq!(exchange_points_to_token(&request), Err(LedgerError::Unauthorized));
    }
}

#[test]
fn supply_is_grouped_in_threes() {
    assert_eq!(format_supply(0), b"0");
    assert_eq!(format_supply(7), b"7");
    assert_eq!(format_supply(999), b"999");
    assert_eq!(format_supply(1000), b"1,000");
    assert_eq!(format_supply(1001), b"1,001");
    assert_eq!(format_supply(12_345), b"12,345");
    assert_eq!(format_supply(1_000_000), b"1,000,000");
    assert_eq!(format_supply(100_020_003), b"100,020,003");
    assert_eq!(format_supply(TOKEN_TOTAL_SUPPLY), b"1,000,000,000,000,000,000");
    assert_eq!(format_supply(u64::MAX), b"18,446,744,073,709,551,615");
    let mut out = b"n=".to_vec();
    push_grouped(&mut out, 1_234_567);
    assert_eq!(out, b"n=1,234,567");
}

#[test]
fn decimal_digits_are_padded_to_the_width() {
    let cases: [(u64, usize, &[u8]); 8] = [
        (0, 0, b"0"),
        (0, 1, b"0"),
        (0, 3, b"000"),
        (7, 5, b"00007"),
        (12345, 5, b"12345"),
        (123456, 5, b"123456"),
        (10, 0, b"10"),
        (u64::MAX, 21, b"018446744073709551615"),
    ];
    for (n, width, want) in cases {
        let mut out = Vec::new();
        push_decimal(&mut out, n, width);
        assert_eq!(out, want);
    }
    let mut out = b"xyz".to_vec();
    push_decimal(&mut out, 90, 3);
    assert_eq!(out, b"xyz090");
}

#[test]
fn explorer_url_depends_on_the_network() {
    assert_eq!(
        explorer_url("mainnet", "Prog1111"),
        b"https://explorer.solana.com/address/Prog1111"
    );
    assert_eq!(
        explorer_url("devnet", "Prog1111"),
        b"https://explorer.solana.com/?cluster=devnet/address/Prog1111"
    );
    assert_eq!(
        explorer_url("", ""),
        b"https://explorer.solana.com/?cluster=devnet/address/"
    );
    assert_eq!(
        explorer_url("Mainnet", "\u{672a}\u{90e8}\u{7f72}"),
        "https://explorer.solana.com/?cluster=devnet/address/\u{672a}\u{90e8}\u{7f72}".as_bytes()
    );
}

#[test]
fn token_info_holds_the_constants() {
    let info = TokenInfo::new("Prog1111".to_string());
    assert_eq!(info.name, "$LE Token");
    assert_eq!(info.symbol, "LE");
    assert_eq!(info.decimals, 9);
    assert_eq!(info.total_supply, 1_000_000_000_000_000_000);
    assert_eq!(info.contract_address, "Prog1111");
    let details = get_token_info(&info, "mainnet");
    assert_eq!(details.info.name, "$LE Token");
    assert_eq!(details.info.symbol, "LE");
    assert_eq!(details.info.decimals, 9);
    assert_eq!(details.info.total_supply, info.total_supply);
    assert_eq!(details.info.contract_address, "Prog1111");
    assert_eq!(details.formatted_supply, b"1,000,000,000,000,000,000");
    assert_eq!(details.explorer_url, b"https://explorer.solana.com/address/Prog1111");
}

#[test]
fn labels_and_payloads() {
    assert_eq!(user_number_label(1), b"#00001");
    assert_eq!(user_number_label(0), b"#00000");
    assert_eq!(user_number_label(42), b"#00042");
    assert_eq!(user_number_label(99999), b"#99999");
    assert_eq!(user_number_label(100000), b"#100000");
    assert_eq!(user_number_label(u32::MAX), b"#4294967295");
    assert_eq!(qr_payload(1, 35), b"user_number=#00001&points=35");
    assert_eq!(qr_payload(12, 0), b"user_number=#00012&points=0");
    assert_eq!(
        qr_payload(123456, u64::MAX),
        b"user_number=#123456&points=18446744073709551615"
    );
}

#[test]
fn qr_image_is_base64_of_the_picture() {
    assert_eq!(encode_qr_image(Some(b"hello".to_vec())), Ok("aGVsbG8=".to_string()));
    assert_eq!(encode_qr_image(Some(Vec::new())), Ok(String::new()));
    assert_eq!(encode_qr_image(Some(vec![0xfb, 0xff])), Ok("+/8=".to_string()));
    assert_eq!(encode_qr_image(None), Err(LedgerError::InvalidArgument));
}

#[test]
#[allow(deprecated)]
fn qr_code_is_the_svg_of_the_payload() {
    let mut ledger = LedgerEngine::new(Vec::new());
    let alice = id("alice");
    assert_eq!(generate_qr_code(&ledger, &alice), Err(LedgerError::NotFound));
    ledger.register_user(&alice).unwrap();
    ledger.daily_check_in(&alice, 86400).unwrap();
    let text = generate_qr_code(&ledger, &alice).unwrap();
    let picture = base64::decode(&text).unwrap();
    assert!(picture.starts_with(b"<?xml version=\"1.0\" standalone=\"yes\"?><svg "));
    assert!(picture.ends_with(b"</svg>"));
    let code = qrcode::QrCode::new(b"user_number=#00001&points=10").unwrap();
    let expected = code.render::<qrcode::render::svg::Color>().build();
    assert_eq!(picture, expected.as_bytes());
    assert_eq!(text, base64::encode(expected.as_bytes()));
    let other = UserAccount::from_parts(id("bob"), 11, 0, 0, Vec::new(), 1).unwrap();
    assert_ne!(account_qr_code(&other).unwrap(), text);
    assert_eq!(account_qr_code(ledger.get(&alice).unwrap()).unwrap(), text);
}

#[test]
fn clock_reads_a_time_after_the_epoch() {
    let now = get_current_timestamp().unwrap();
    assert!(now > 1_600_000_000);
}
