use gh_asset::auth::{GitHubAuth, HelperOutcome};
use gh_asset::downloader::AssetDownloader;
use gh_asset::error::AssetError;

fn exited(success: bool, stdout: &[u8], stderr: &str) -> HelperOutcome {
    HelperOutcome::Exited { success, stdout: stdout.to_vec(), stderr: stderr.to_string() }
}

#[test]
fn token_is_the_trimmed_output() {
    let auth = GitHubAuth::new(exited(true, b"gho_abc123\n", "")).unwrap();
    assert_eq!(auth.get_token(), "gho_abc123");
    let auth = GitHubAuth::new(exited(true, b" \t gho_abc 123 \r\n", "")).unwrap();
    assert_eq!(auth.get_token(), "gho_abc 123");
    let auth = GitHubAuth::new(exited(true, b"fake_token", "ignored")).unwrap();
    assert_eq!(auth.get_token(), "fake_token");
}

#[test]
fn unicode_whitespace_is_trimmed() {
    let text = "\u{a0}\u{2003}tok\u{e9}n\u{3000}\u{85}";
    let auth = GitHubAuth::new(exited(true, text.as_bytes(), "")).unwrap();
    assert_eq!(auth.get_token(), "tok\u{e9}n");
    // a zero width space is no whitespace
    let text = "\u{200b}token\u{200b}";
    let auth = GitHubAuth::new(exited(true, text.as_bytes(), "")).unwrap();
    assert_eq!(auth.get_token(), "\u{200b}token\u{200b}");
}

#[test]
fn helper_that_cannot_start_is_unavailable() {
    let r = GitHubAuth::new(HelperOutcome::Unavailable("No such file or directory".to_string()));
    assert!(matches!(r, Err(AssetError::AuthUnavailable(ref cause)) if cause == "No such file or directory"));
}

#[test]
fn helper_failure_is_denied_with_its_diagnostic() {
    let r = GitHubAuth::new(exited(false, b"gho_abc123\n", "not logged in\n"));
    assert!(matches!(r, Err(AssetError::AuthDenied(ref text)) if text == "not logged in\n"));
}

#[test]
fn empty_output_is_auth_empty() {
    for stdout in [&b""[..], &b"\n"[..], &b"  \t\r\n "[..]] {
        let r = GitHubAuth::new(exited(true, stdout, ""));
        assert!(matches!(r, Err(AssetError::AuthEmpty)));
    }
}

#[test]
fn output_that_is_not_utf8_is_auth_empty() {
    for stdout in [&[0xffu8, 0xfe, 0x41][..], &[0x67, 0x68, 0xc3][..], &[0xed, 0xa0, 0x80][..]] {
        let r = GitHubAuth::new(exited(true, stdout, ""));
        assert!(matches!(r, Err(AssetError::AuthEmpty)));
    }
}

#[test]
fn downloader_fails_as_the_credential_does() {
    assert!(matches!(
        AssetDownloader::new(exited(true, b"", "")),
        Err(AssetError::AuthEmpty)
    ));
    assert!(matches!(
        AssetDownloader::new(exited(false, b"x", "denied")),
        Err(AssetError::AuthDenied(ref text)) if text == "denied"
    ));
    assert!(matches!(
        AssetDownloader::new(HelperOutcome::Unavailable("gone".to_string())),
        Err(AssetError::AuthUnavailable(ref cause)) if cause == "gone"
    ));
}

#[test]
fn downloader_holds_the_token() {
    let downloader = AssetDownloader::new(exited(true, b"fake_token\n", "")).unwrap();
    assert_eq!(downloader.auth().get_token(), "fake_token");
    assert_eq!(downloader.authorization(), "token fake_token");
}

#[test]
fn only_success_statuses_pass() {
    let downloader = AssetDownloader::new(exited(true, b"fake_token", "")).unwrap();
    for status in [200u16, 201, 204, 206, 299] {
        assert_eq!(downloader.check_response_status(status), Ok(()));
    }
    for status in [0u16, 100, 199, 300, 302, 304, 400, 401, 404, 500, 503, 999, 65535] {
        assert_eq!(
            downloader.check_response_status(status),
            Err(AssetError::HttpError { status })
        );
    }
}
