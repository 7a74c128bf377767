use std::path::PathBuf;

use obs_telegram_agent::config::{validate_config, ConfigInput};
use obs_telegram_agent::install_bearer::{
    after_create_temporary, after_link, after_read, generated_bearer, temporary_file_name,
    temporary_name_from, APP_SUPPORT_DIRECTORY_NAME,
    valid_bearer, BearerRead, CreateOutcome, CreateStep, InstallBearerStore,
    InstallBearerStoreError, LinkStep, LoadStep, INSTALL_BEARER_FILE_NAME, READ_RETRY_COUNT,
};
use obs_telegram_agent::keychain::{
    clear_result, load_result, stored_config, stored_fields, DeleteOutcome, SecretStoreError,
    StoredFields, StoredRead,
};

#[test]
fn generated_bearers_are_valid_and_distinct() {
    let first = generated_bearer().unwrap();
    let second = generated_bearer().unwrap();
    assert_eq!(first.len(), 64);
    assert!(valid_bearer(&first));
    assert_ne!(first, second);
}

#[test]
fn a_bearer_is_exactly_sixty_four_hexadecimal_digits() {
    assert!(valid_bearer(&"aF09".repeat(16)));
    assert!(!valid_bearer(&"a".repeat(63)));
    assert!(!valid_bearer(&"a".repeat(65)));
    assert!(!valid_bearer(&format!("{}g", "a".repeat(63))));
    assert!(!valid_bearer(&format!("{}\n", "a".repeat(63))));
    assert!(!valid_bearer(&format!("{}é", "a".repeat(62))));
}

#[test]
fn a_bearer_file_being_written_is_read_again_ten_times() {
    assert_eq!(READ_RETRY_COUNT, 10);
    let good = "0".repeat(64);
    match after_read(3, BearerRead::Contents(good.clone())) {
        LoadStep::Accept(secret) => assert_eq!(secret.expose_secret(), good),
        _ => panic!("a valid bearer is accepted"),
    }
    assert!(matches!(
        after_read(0, BearerRead::Contents(String::new())),
        LoadStep::RetryAfterDelay
    ));
    assert!(matches!(
        after_read(8, BearerRead::Contents("x".to_owned())),
        LoadStep::RetryAfterDelay
    ));
    assert!(matches!(
        after_read(9, BearerRead::Contents("x".to_owned())),
        LoadStep::Fail(InstallBearerStoreError::InvalidStoredBearer)
    ));
    assert!(matches!(after_read(0, BearerRead::NotFound), LoadStep::Create));
    assert!(matches!(
        after_read(0, BearerRead::Failed),
        LoadStep::Fail(InstallBearerStoreError::Unavailable)
    ));
}

#[test]
fn creating_a_bearer_never_replaces_one_stored_first() {
    assert_eq!(after_create_temporary(CreateOutcome::Done), CreateStep::Write);
    assert_eq!(
        after_create_temporary(CreateOutcome::AlreadyExists),
        CreateStep::TryAnotherName
    );
    assert_eq!(
        after_create_temporary(CreateOutcome::Failed),
        CreateStep::Fail(InstallBearerStoreError::Unavailable)
    );
    assert_eq!(after_link(CreateOutcome::Done), LinkStep::UseNewBearer);
    assert_eq!(after_link(CreateOutcome::AlreadyExists), LinkStep::LoadExisting);
    assert_eq!(
        after_link(CreateOutcome::Failed),
        LinkStep::Fail(InstallBearerStoreError::Unavailable)
    );
}

#[test]
fn the_bearer_file_lives_in_the_store_directory() {
    let store = InstallBearerStore::at(PathBuf::from("/support/app"));
    assert_eq!(store.directory(), &PathBuf::from("/support/app"));
    assert_eq!(
        store.path(),
        PathBuf::from("/support/app").join(INSTALL_BEARER_FILE_NAME)
    );
    let temporary = store.temporary_path().unwrap();
    assert_eq!(temporary.parent().unwrap(), PathBuf::from("/support/app"));
    let name = temporary_file_name().unwrap();
    assert!(name.starts_with(".loopback-install-bearer.tmp-"));
    assert_eq!(name.len(), ".loopback-install-bearer.tmp-".len() + 16);
}

#[test]
fn a_saved_configuration_loads_back_unchanged() {
    let config = validate_config(ConfigInput {
        bot_token: "123:token".to_owned(),
        api_id: 77,
        api_hash: "abc".to_owned(),
        chat_id: -5,
    })
    .unwrap();
    let fields = stored_fields(&config);
    assert_eq!(fields.api_id, 77);
    let loaded = stored_config(Some(fields)).unwrap();
    assert_eq!(loaded.bot_token.expose_secret(), "123:token");
    assert_eq!(loaded.api_id, 77);
    assert_eq!(loaded.api_hash.expose_secret(), "abc");
    assert_eq!(loaded.chat_id, -5);
}

fn fields(api_id: u64, api_hash: &str) -> StoredFields {
    StoredFields {
        bot_token: "1:t".to_owned(),
        api_id,
        api_hash: api_hash.to_owned(),
        chat_id: 3,
    }
}

#[test]
fn stored_text_that_is_no_valid_configuration_is_reported() {
    assert!(stored_config(None).is_none());
    assert!(stored_config(Some(fields(u64::from(u32::MAX) + 1, "h"))).is_none());
    assert!(stored_config(Some(fields(u64::from(u32::MAX), "h"))).is_some());
    assert!(stored_config(Some(fields(5, "  "))).is_none());
    assert!(matches!(load_result(StoredRead::NoEntry), Ok(None)));
    assert!(matches!(
        load_result(StoredRead::Failed),
        Err(SecretStoreError::Unavailable)
    ));
    assert!(matches!(
        load_result(StoredRead::Found(None)),
        Err(SecretStoreError::InvalidStoredConfiguration)
    ));
    assert!(matches!(
        load_result(StoredRead::Found(Some(fields(0, "h")))),
        Err(SecretStoreError::InvalidStoredConfiguration)
    ));
    assert!(matches!(
        load_result(StoredRead::Found(Some(fields(1, "h")))),
        Ok(Some(_))
    ));
    assert_eq!(clear_result(DeleteOutcome::Deleted), Ok(()));
    assert_eq!(clear_result(DeleteOutcome::NoEntry), Ok(()));
    assert_eq!(
        clear_result(DeleteOutcome::Failed),
        Err(SecretStoreError::Unavailable)
    );
}

#[test]
fn temporary_name_spells_the_suffix_in_lowercase_hexadecimal() {
    assert_eq!(
        temporary_name_from(&[0, 1, 2, 3, 0xab, 0xcd, 0xef, 0xff]),
        ".loopback-install-bearer.tmp-00010203abcdefff"
    );
}

#[test]
fn install_bearer_store_lives_in_the_application_support_directory() {
    let data_local = PathBuf::from("/Users/me/Library/Application Support");
    let store = InstallBearerStore::in_app_support_at(&data_local);
    assert_eq!(APP_SUPPORT_DIRECTORY_NAME, "OBS-Telegram-Send");
    assert_eq!(store.directory(), &data_local.join("OBS-Telegram-Send"));
}
