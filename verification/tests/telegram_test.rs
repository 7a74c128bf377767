use std::path::PathBuf;

use obs_telegram_agent::config::{validate_config, ConfigInput};
use obs_telegram_agent::secret::Secret;
use obs_telegram_agent::telegram::{
    after_get_me, after_readiness_check, app_credentials_fingerprint, call_confirmed,
    chat_id_text, check_upload_size, command_arguments, command_line, detect_chat_in,
    listener_is_owned_by, local_endpoint, lsof_arguments, matching_start_chat, method_url,
    migration_after_logout, migration_after_marker, migration_first_step, readiness_verdict,
    sends_as_video, token_fingerprint, upload_result, upload_target, BotApiDirectories,
    bot_api_directories_at, marker_path, migration_marker_directory_at,
    CredentialSource, ListenerCheck, MigrationStep, ReadinessStep, RetryStep, StartUpdate,
    TelegramError, UploadError,
};

#[test]
fn fake_local_endpoint_receives_video_for_mp4_and_document_for_other_files() {
    let config = validate_config(ConfigInput {
        bot_token: "123:token".to_owned(),
        api_id: 123,
        api_hash: "0123456789abcdef0123456789abcdef".to_owned(),
        chat_id: -10012345,
    })
    .unwrap();
    let endpoint = "http://127.0.0.1:4000";
    let mut methods = Vec::new();
    for extension in [Some("mp4"), Some("mkv")] {
        let (_, method) = upload_target(sends_as_video(extension));
        let url = method_url(endpoint, config.bot_token.expose_secret(), method);
        methods.push(url.trim_start_matches(endpoint).to_owned());
    }
    assert_eq!(
        methods,
        vec!["/bot123:token/sendVideo", "/bot123:token/sendDocument"]
    );
}

#[test]
fn upload_field_and_method_follow_the_extension() {
    assert!(sends_as_video(Some("MP4")));
    assert!(sends_as_video(Some("mP4")));
    assert!(!sends_as_video(Some("mp4v")));
    assert!(!sends_as_video(None));
    assert_eq!(upload_target(true), ("video", "sendVideo"));
    assert_eq!(upload_target(false), ("document", "sendDocument"));
}

#[test]
fn method_urls_drop_trailing_slashes_of_the_endpoint() {
    assert_eq!(
        method_url("https://api.telegram.org//", "1:a", "logOut"),
        "https://api.telegram.org/bot1:a/logOut"
    );
    assert_eq!(method_url("", "1:a", "getMe"), "/bot1:a/getMe");
}

#[test]
fn local_endpoint_names_the_loopback_port() {
    assert_eq!(local_endpoint(8081), "http://127.0.0.1:8081");
    assert_eq!(local_endpoint(0), "http://127.0.0.1:0");
    assert_eq!(local_endpoint(65535), "http://127.0.0.1:65535");
}

#[test]
fn chat_identifiers_are_written_in_decimal() {
    assert_eq!(chat_id_text(-10012345), "-10012345");
    assert_eq!(chat_id_text(0), "0");
    assert_eq!(chat_id_text(i64::MIN), i64::MIN.to_string());
    assert_eq!(chat_id_text(i64::MAX), i64::MAX.to_string());
}

#[test]
fn uploads_over_two_gibibytes_are_refused_before_sending() {
    assert_eq!(check_upload_size(2 * 1024_u64.pow(3)), Ok(()));
    assert_eq!(
        check_upload_size(2 * 1024_u64.pow(3) + 1),
        Err(UploadError::PreUploadRejected)
    );
    assert_eq!(upload_result(true, true), Ok(()));
    assert_eq!(upload_result(true, false), Err(UploadError::TransportUncertain));
    assert_eq!(upload_result(false, true), Err(UploadError::TransportUncertain));
}

fn update(text: Option<&str>, chat_id: Option<i64>) -> StartUpdate {
    StartUpdate {
        text: text.map(str::to_owned),
        chat_id,
    }
}

#[test]
fn chat_detection_takes_the_first_matching_start_command() {
    let updates = vec![
        update(None, Some(1)),
        update(Some("/start other"), Some(2)),
        update(Some("/start n0nce"), None),
        update(Some("/start n0nce"), Some(-10012345)),
        update(Some("/start n0nce"), Some(4)),
    ];
    assert_eq!(detect_chat_in(Some(&updates), "n0nce"), Ok(-10012345));
    assert_eq!(
        detect_chat_in(Some(&updates), "missing"),
        Err(TelegramError::ChatNotFound)
    );
    assert_eq!(detect_chat_in(None, "n0nce"), Err(TelegramError::ChatNotFound));
    assert_eq!(
        matching_start_chat(&update(Some("/start n0nce "), Some(9)), "n0nce"),
        None
    );
}

#[test]
fn a_message_without_text_is_not_a_start_command() {
    let updates = vec![update(None, Some(-10012345))];
    assert_eq!(
        detect_chat_in(Some(&updates), ""),
        Err(TelegramError::ChatNotFound)
    );
}

#[test]
fn error_messages_name_the_next_step() {
    assert_eq!(
        TelegramError::ChatNotFound.message(),
        "No Telegram chat was found. Send /start to the bot first."
    );
    assert_eq!(
        TelegramError::FileTooLarge.message(),
        "The recording is larger than 2 GiB."
    );
    assert_eq!(
        TelegramError::ConfigurationUnavailable.message(),
        "Telegram is not configured."
    );
    assert_eq!(
        TelegramError::RequestFailed.message(),
        "Telegram could not complete the request."
    );
}

#[test]
fn the_listener_belongs_to_the_child_only_when_lsof_lists_it_alone() {
    assert!(listener_is_owned_by(42, "p42\n"));
    assert!(listener_is_owned_by(42, "p42\np42"));
    assert!(listener_is_owned_by(42, "f3\np42\r\n"));
    assert!(listener_is_owned_by(42, "p+42\n"));
    assert!(!listener_is_owned_by(42, ""));
    assert!(!listener_is_owned_by(42, "p42\np43\n"));
    assert!(!listener_is_owned_by(42, "q42\n"));
    assert!(!listener_is_owned_by(42, "p42\r"));
    assert!(!listener_is_owned_by(7, "p4294967303\n"));
    assert!(listener_is_owned_by(7, "p4294967303\np7\n"));
    assert!(listener_is_owned_by(4294967295, "p4294967295"));
}

#[test]
fn token_fingerprint_is_the_hexadecimal_sha256_of_the_token() {
    let token = Secret::new("123:token".to_owned());
    assert_eq!(
        token_fingerprint(&token),
        "f594f76eb54dcf26cea00885cdc9b20c6d3fc8d7a868eae8a7692ee37e52c4c9"
    );
}

#[test]
fn app_credentials_fingerprint_hashes_the_id_then_the_hash() {
    let hash = Secret::new("0123456789abcdef0123456789abcdef".to_owned());
    assert_eq!(
        app_credentials_fingerprint(123_456, &hash),
        [
            194, 58, 24, 255, 211, 179, 64, 217, 164, 180, 110, 158, 111, 33, 204, 122, 29, 180,
            123, 118, 226, 130, 217, 0, 93, 63, 214, 232, 170, 184, 6, 3
        ]
    );
}

#[test]
fn the_local_server_runs_in_local_mode_on_loopback() {
    let arguments = command_line(8081, "/data".to_owned(), "/data/temp".to_owned());
    assert_eq!(
        arguments,
        vec![
            "--local",
            "--http-ip-address",
            "127.0.0.1",
            "--http-port",
            "8081",
            "--dir",
            "/data",
            "--temp-dir",
            "/data/temp"
        ]
    );
    let directories =
        BotApiDirectories::new(PathBuf::from("/d/data"), PathBuf::from("/d/data/temp"));
    assert_eq!(directories.data_dir(), &PathBuf::from("/d/data"));
    assert_eq!(directories.temp_dir(), &PathBuf::from("/d/data/temp"));
    let arguments = command_arguments(9, &directories);
    assert_eq!(arguments[4], "9");
    assert_eq!(arguments[6], "/d/data");
    assert_eq!(arguments[8], "/d/data/temp");
}

#[test]
fn cloud_logout_is_skipped_once_recorded_and_recorded_only_when_confirmed() {
    assert_eq!(migration_first_step(true, true), MigrationStep::StartLocal);
    assert_eq!(migration_first_step(true, false), MigrationStep::CloudLogout);
    assert_eq!(
        migration_first_step(false, true),
        MigrationStep::Fail(TelegramError::RequestFailed)
    );
    assert_eq!(migration_after_logout(true), MigrationStep::WriteMarker);
    assert_eq!(migration_after_logout(false), MigrationStep::StartLocal);
    assert_eq!(migration_after_marker(true), MigrationStep::StartLocal);
    assert_eq!(
        migration_after_marker(false),
        MigrationStep::Fail(TelegramError::RequestFailed)
    );
    assert!(call_confirmed(true, Some(true)));
    assert!(!call_confirmed(true, Some(false)));
    assert!(!call_confirmed(true, None));
    assert!(!call_confirmed(false, Some(true)));
}

#[test]
fn get_me_is_tried_twenty_times() {
    assert_eq!(after_get_me(0, true), RetryStep::Done);
    assert_eq!(after_get_me(0, false), RetryStep::RetryAfterDelay);
    assert_eq!(after_get_me(18, false), RetryStep::RetryAfterDelay);
    assert_eq!(
        after_get_me(19, false),
        RetryStep::Fail(TelegramError::RequestFailed)
    );
    assert_eq!(after_readiness_check(0, false, true), ReadinessStep::Fail);
    assert_eq!(after_readiness_check(38, false, false), ReadinessStep::WaitThenRetry);
    assert_eq!(after_readiness_check(39, false, false), ReadinessStep::WaitThenFail);
    assert_eq!(after_readiness_check(39, true, false), ReadinessStep::Ready);
}

#[test]
fn a_server_is_ready_only_when_running_reachable_and_listening_itself() {
    let owned = ListenerCheck::Output("p10\n".to_owned());
    let foreign = ListenerCheck::Output("p11\n".to_owned());
    assert_eq!(readiness_verdict(Some(false), true, &owned, 10), Ok(()));
    assert_eq!(readiness_verdict(Some(false), true, &ListenerCheck::Skipped, 10), Ok(()));
    assert_eq!(
        readiness_verdict(Some(false), true, &foreign, 10),
        Err(TelegramError::RequestFailed)
    );
    assert_eq!(
        readiness_verdict(Some(true), true, &owned, 10),
        Err(TelegramError::RequestFailed)
    );
    assert_eq!(
        readiness_verdict(None, true, &owned, 10),
        Err(TelegramError::RequestFailed)
    );
    assert_eq!(
        readiness_verdict(Some(false), false, &owned, 10),
        Err(TelegramError::RequestFailed)
    );
    assert_eq!(
        readiness_verdict(Some(false), true, &ListenerCheck::Failed, 10),
        Err(TelegramError::RequestFailed)
    );
}

#[test]
fn onboarding_credentials_cannot_send_but_name_the_bot() {
    let source = CredentialSource::Onboarding(obs_telegram_agent::config::TelegramCredentials {
        bot_token: Secret::new("1:x".to_owned()),
        api_id: 5,
        api_hash: Secret::new("h".to_owned()),
    });
    assert!(matches!(
        source.supplied_configuration(),
        Err(TelegramError::ConfigurationUnavailable)
    ));
    assert_eq!(source.supplied_bot_token().unwrap().expose_secret(), "1:x");
    let keychain = CredentialSource::Keychain;
    assert!(matches!(keychain.supplied_configuration(), Ok(None)));
    assert!(keychain.supplied_bot_token().is_none());
}

#[test]
fn lsof_is_asked_for_the_listener_of_the_port() {
    assert_eq!(
        lsof_arguments(8081),
        vec!["-nP", "-iTCP:8081", "-sTCP:LISTEN", "-Fp"]
    );
}

#[test]
fn bot_api_data_lives_beside_the_packaged_executable_with_temp_inside_it() {
    let support = PathBuf::from("/Users/me/Library/Application Support/OBS-Telegram-Send");
    let directories = bot_api_directories_at(&support);
    assert_eq!(directories.data_dir(), &support.join("telegram-bot-api-data"));
    assert_ne!(directories.data_dir(), &support.join("telegram-bot-api"));
    assert_eq!(
        directories.temp_dir(),
        &support.join("telegram-bot-api-data").join("temp")
    );
    assert_eq!(directories.temp_dir(), &directories.data_dir().join("temp"));
}

#[test]
fn migration_marker_is_named_by_the_token_fingerprint() {
    let data_local = PathBuf::from("/home/me/.local/share");
    let directory = migration_marker_directory_at(&data_local);
    assert_eq!(
        directory,
        data_local
            .join("OBS-Telegram-Send")
            .join("telegram-bot-api-data")
            .join("cloud-migrations")
    );
    let token = Secret::new("123:token".to_owned());
    assert_eq!(
        marker_path(&directory, &token),
        directory.join("f594f76eb54dcf26cea00885cdc9b20c6d3fc8d7a868eae8a7692ee37e52c4c9")
    );
}
