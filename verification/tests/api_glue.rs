use tsom_api::connection::game_connect;
use tsom_api::players::{acceptable_player_token, validate_nickname};
use tsom_api::connection_token::ServerAddress;
use tsom_api::errors::{GeneralErrorCode, RequestError, RouteError, ServerErrorCode};
use tsom_api::game_data::{Repo, remove_game_suffix};
use tsom_api::query_map::standard_queries;
use tsom_api::resolver::dev_token_key;

const SECRET: &[u8] = b"a-shared-test-secret";

fn connect(dev: bool) -> tsom_api::connection_token::ConnectionToken {
    game_connect(
        SECRET,
        &[17u8; 32],
        dev,
        42,
        [9u8; 16],
        "Bob".to_string(),
        vec!["play".to_string()],
        "https://api.example",
        ServerAddress::new("game.example", 7777),
        3600,
        30,
    )
    .unwrap()
}

#[test]
fn connect_flow_produces_a_working_envelope() {
    let token = connect(false);
    assert_eq!(token.token_version, 2);
    assert_eq!(token.expire_timestamp, token.creation_timestamp + 30);
    assert_eq!(token.game_server.address, "game.example");

    // the private part opens under the production key and embeds a
    // refresh claims token that verifies against the same secret
    let plaintext = token.unseal_private_data(&[17u8; 32]).unwrap();
    let prefix_len = u32::from_le_bytes(plaintext[0..4].try_into().unwrap()) as usize;
    let refresh_jwt = &plaintext[4..4 + prefix_len];
    let claims = tsom_api::jwt::verify_at(
        SECRET,
        refresh_jwt,
        tsom_api::game_data_token::TokenKind::Refresh,
        token.creation_timestamp,
    )
    .unwrap();
    assert_eq!(claims.player_db_id, 42);
    assert_eq!(claims.player_uuid, [9u8; 16]);
    assert!(!claims.is_readonly);
    assert_eq!(claims.exp, claims.iat + 3600);
}

#[test]
fn connect_flow_in_developer_mode() {
    let token = connect(true);
    assert_eq!(token.game_server.address, "localhost");
    assert_eq!(token.game_server.port, 7777);
    // sealed under the developer key, not the production key
    assert!(token.unseal_private_data(&[17u8; 32]).is_err());
    let plaintext = token.unseal_private_data(&dev_token_key()).unwrap();
    // the elevated permission pair replaces the fetched list
    let text = String::from_utf8_lossy(&plaintext);
    assert!(text.contains("admin"));
    assert!(text.contains("dev"));
    assert!(!text.contains("play"));
}

#[test]
fn error_codes_have_stable_wire_forms() {
    assert_eq!(GeneralErrorCode::FetchLatestRelease.as_str(), "fetch_latest_release");
    assert_eq!(GeneralErrorCode::NotFoundPlatform.as_str(), "not_found_platform");
    assert_eq!(GeneralErrorCode::NicknameEmpty.as_str(), "nickname_empty");
    assert_eq!(GeneralErrorCode::NicknameToolong.as_str(), "nickname_toolong");
    assert_eq!(
        GeneralErrorCode::NicknameForbiddenCharacters.as_str(),
        "nickname_forbidden_characters"
    );
    assert_eq!(
        GeneralErrorCode::AuthenticationInvalidToken.as_str(),
        "authentication_invalid_token"
    );
    assert_eq!(GeneralErrorCode::InvalidToken.as_str(), "invalid_token");
    assert_eq!(GeneralErrorCode::InvalidId.as_str(), "invalid_id");
    assert_eq!(GeneralErrorCode::Internal.as_str(), "api_internal");
    assert_eq!(GeneralErrorCode::InvalidToken.description(), "The given token is invalid");
    assert_eq!(
        GeneralErrorCode::Internal.description(),
        "An internal error occured on the server, please retry later"
    );
}

#[test]
fn error_codes_map_to_status_and_response_codes() {
    assert_eq!(GeneralErrorCode::FetchLatestRelease.status_code(), 404);
    assert_eq!(GeneralErrorCode::NotFoundPlatform.status_code(), 404);
    assert_eq!(GeneralErrorCode::Internal.status_code(), 500);
    assert_eq!(GeneralErrorCode::InvalidToken.status_code(), 400);
    assert_eq!(GeneralErrorCode::NicknameEmpty.status_code(), 400);

    assert_eq!(ServerErrorCode::NoReleaseFound.response_code(), GeneralErrorCode::FetchLatestRelease);
    assert_eq!(ServerErrorCode::EmptyToken.response_code(), GeneralErrorCode::InvalidToken);
    assert_eq!(
        ServerErrorCode::InvalidToken(None).response_code(),
        GeneralErrorCode::InvalidToken
    );
    assert_eq!(
        ServerErrorCode::TokenGenerationFailed.response_code(),
        GeneralErrorCode::Internal
    );
    assert_eq!(
        ServerErrorCode::NotFoundPlatform("linux".to_string()).response_code(),
        GeneralErrorCode::NotFoundPlatform
    );

    let err = RouteError::InvalidRequest(ServerErrorCode::InvalidId, "no such id".to_string());
    assert_eq!(err.status_code(), 400);
    let err = RouteError::ServerError(
        tsom_api::errors::ErrorCause::Internal,
        ServerErrorCode::Internal,
    );
    assert_eq!(err.status_code(), 500);

    let body = RequestError::new(GeneralErrorCode::InvalidId, "gone".to_string());
    assert_eq!(body.err_code, GeneralErrorCode::InvalidId);
    assert_eq!(body.err_desc, "gone");
}

#[test]
fn query_map_finds_prepared_statements() {
    let queries = standard_queries();
    let q = queries.prepare("find-token");
    assert_eq!(q.query(), "SELECT player_id FROM player_tokens WHERE token = $1");
    assert_eq!(q.types(), &[tsom_api::query_map::SqlType::Varchar]);
    let q = queries.prepare("insert-player-ship");
    assert_eq!(q.types().len(), 3);
    assert!(queries.try_prepare("find-player-info").is_some());
    assert!(queries.try_prepare("no-such-query").is_none());
}

#[test]
fn release_names_reduce_to_platforms() {
    assert_eq!(remove_game_suffix(b"windows_x64_releasedbg.zip"), b"windows_x64");
    assert_eq!(remove_game_suffix(b"linux_x86_64.tar.gz"), b"linux_x86_64");
    assert_eq!(remove_game_suffix(b"assets.zip"), b"assets");
    assert_eq!(remove_game_suffix(b"plain"), b"plain");
    assert_eq!(remove_game_suffix(b"macos_releasedbg"), b"macos");
    assert_eq!(remove_game_suffix(b""), b"");
}

#[test]
fn repositories_keep_their_coordinates() {
    let repo = Repo::new("studio", "game");
    assert_eq!(repo.owner(), "studio");
    assert_eq!(repo.repository(), "game");
}

#[test]
fn nickname_validation_follows_the_rules() {
    assert_eq!(validate_nickname("Bob", 32, false), Ok(()));
    assert_eq!(validate_nickname("Bob the_2nd", 32, false), Ok(()));
    assert!(matches!(validate_nickname("", 32, false), Err(ServerErrorCode::NicknameEmpty)));
    assert!(matches!(validate_nickname("   ", 32, false), Err(ServerErrorCode::NicknameEmpty)));
    assert!(matches!(
        validate_nickname("toolongname", 4, false),
        Err(ServerErrorCode::NicknameToolong)
    ));
    assert!(matches!(
        validate_nickname("Bob!", 32, false),
        Err(ServerErrorCode::NicknameForbiddenCharacters)
    ));
    assert_eq!(validate_nickname("B\u{f6}b", 32, true), Ok(()));
    assert!(matches!(
        validate_nickname("B\u{f6}b", 32, false),
        Err(ServerErrorCode::NicknameForbiddenCharacters)
    ));

    assert!(acceptable_player_token("abc"));
    assert!(!acceptable_player_token(""));
    assert!(acceptable_player_token(&"x".repeat(64)));
    assert!(!acceptable_player_token(&"x".repeat(65)));
}
