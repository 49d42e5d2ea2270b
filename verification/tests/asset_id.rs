use gh_asset::auth::HelperOutcome;
use gh_asset::downloader::AssetDownloader;
use gh_asset::error::AssetError;
use gh_asset::source::{SourceMode, ASSET_URL_PREFIX, LOOSE_ID_PATTERN, STRICT_ID_PATTERN};

fn id_downloader() -> AssetDownloader {
    AssetDownloader::new(HelperOutcome::Exited {
        success: true,
        stdout: "fake_token".as_bytes().to_vec(),
        stderr: String::new(),
    })
    .unwrap()
}

#[test]
fn test_is_valid_asset_id_valid() {
    let downloader = id_downloader();

    // Valid UUID format
    assert!(downloader.is_valid_asset_id("1234abcd-1234-1234-1234-1234abcd1234"));
    // Valid GitHub format (more than 20 chars with multiple hyphens)
    assert!(downloader.is_valid_asset_id("1234567890123456789x-1234567x-1234567x"));
}

#[test]
fn test_is_valid_asset_id_invalid() {
    let downloader = id_downloader();

    assert!(!downloader.is_valid_asset_id(""));
    assert!(!downloader.is_valid_asset_id("abc"));
    assert!(!downloader.is_valid_asset_id("invalid@id"));
    assert!(!downloader.is_valid_asset_id("id with spaces"));
    assert!(!downloader.is_valid_asset_id("a1b2c3d4e5")); // No hyphen
    assert!(!downloader.is_valid_asset_id("../../../etc/passwd"));
    assert!(!downloader.is_valid_asset_id("'; rm -rf /; '"));
}

#[test]
fn test_build_asset_url() {
    let downloader = id_downloader();

    let result = downloader.build_asset_url("1234abcd-1234-1234-1234-1234abcd1234");
    assert_eq!(
        result.unwrap(),
        "https://github.com/user-attachments/assets/1234abcd-1234-1234-1234-1234abcd1234"
    );
}

#[test]
fn test_build_asset_url_invalid() {
    let downloader = id_downloader();

    let result = downloader.build_asset_url("invalid@id");
    assert!(result.is_err());

    let result = downloader.build_asset_url("../../../etc/passwd");
    assert!(result.is_err());
}

#[test]
fn build_asset_url_names_the_error() {
    let downloader = id_downloader();
    assert_eq!(downloader.build_asset_url("invalid@id"), Err(AssetError::InvalidAssetId));
    assert_eq!(downloader.build_asset_url("id with spaces"), Err(AssetError::InvalidAssetId));
    assert_eq!(downloader.build_asset_url("'; rm -rf /; '"), Err(AssetError::InvalidAssetId));
    assert_eq!(downloader.build_asset_url(""), Err(AssetError::InvalidAssetId));
}

#[test]
fn asset_url_is_prefix_and_identifier() {
    let downloader = id_downloader();
    let id = "abcd1234-5678-9012-3456-789012345678";
    let url = downloader.build_asset_url(id).unwrap();
    assert_eq!(url, format!("{}{}", ASSET_URL_PREFIX, id));
    assert_eq!(ASSET_URL_PREFIX, "https://github.com/user-attachments/assets/");
}

#[test]
fn identifier_length_bounds() {
    let downloader = id_downloader();
    // 19, 20, 50 and 51 characters of the loose shape
    let nineteen = "a-b-cdefghijklmnopq";
    let twenty = "a-b-cdefghijklmnopqr";
    let fifty = "a-b-cdefghijklmnopqrstuvwxyz0123456789ABCDEFGHIJKL";
    let fifty_one = "a-b-cdefghijklmnopqrstuvwxyz0123456789ABCDEFGHIJKLM";
    assert_eq!(nineteen.len(), 19);
    assert_eq!(twenty.len(), 20);
    assert_eq!(fifty.len(), 50);
    assert_eq!(fifty_one.len(), 51);
    assert!(!downloader.is_valid_asset_id(nineteen));
    assert!(downloader.is_valid_asset_id(twenty));
    assert!(downloader.is_valid_asset_id(fifty));
    assert!(!downloader.is_valid_asset_id(fifty_one));
}

#[test]
fn identifier_without_hyphen_is_rejected() {
    let downloader = id_downloader();
    assert!(!downloader.is_valid_asset_id("abcdefghijklmnopqrstuvwxyz"));
    assert!(!downloader.is_valid_asset_id("1234abcd123412341234123412341234abcd"));
    assert_eq!(
        downloader.build_asset_url("abcdefghijklmnopqrstuvwxyz"),
        Err(AssetError::InvalidAssetId)
    );
}

#[test]
fn loose_shape_needs_two_hyphens() {
    let downloader = id_downloader();
    // one hyphen: matches the loose pattern only
    assert!(!downloader.is_valid_asset_id("abcdefghij-klmnopqrstuvwxyz"));
    // two hyphens
    assert!(downloader.is_valid_asset_id("abcdefghij-klmnopqr-stuvwxyz"));
}

#[test]
fn loose_shape_needs_alphanumeric_ends() {
    let downloader = id_downloader();
    assert!(!downloader.is_valid_asset_id("-bcdefghij-klmnopqr-stuvwxyz"));
    assert!(!downloader.is_valid_asset_id("abcdefghij-klmnopqr-stuvwxy-"));
    assert!(!downloader.is_valid_asset_id("abcdefghij-klmnop_r-stuvwxyz"));
}

#[test]
fn strict_shape_is_hexadecimal() {
    let downloader = id_downloader();
    assert!(downloader.is_valid_asset_id("ABCDEF01-2345-6789-abcd-ef0123456789"));
    // not hexadecimal, but of the loose shape with four hyphens
    assert!(downloader.is_valid_asset_id("1234abcg-1234-1234-1234-1234abcd1234"));
    // multi-byte characters fit neither shape
    assert!(!downloader.is_valid_asset_id("1234abcd-1234-1234-1234-1234abcd123é"));
}

#[test]
fn accepts_asset_id_decides_from_the_pattern_results() {
    let downloader = id_downloader();
    let uuid = "1234abcd-1234-1234-1234-1234abcd1234";
    assert!(downloader.accepts_asset_id(uuid, Some(true), Some(true)));
    assert!(downloader.accepts_asset_id(uuid, Some(true), None));
    assert!(downloader.accepts_asset_id(uuid, Some(false), Some(true)));
    assert!(downloader.accepts_asset_id(uuid, None, Some(true)));
    assert!(!downloader.accepts_asset_id(uuid, Some(false), Some(false)));
    assert!(!downloader.accepts_asset_id(uuid, None, None));
    // one hyphen only: the loose result alone is not enough
    let one = "abcdefghij-klmnopqrstuvwxyz";
    assert!(!downloader.accepts_asset_id(one, Some(false), Some(true)));
    assert!(downloader.accepts_asset_id(one, Some(true), Some(false)));
    // implausible identifiers are refused whatever the patterns said
    assert!(!downloader.accepts_asset_id("a-b", Some(true), Some(true)));
    assert!(!downloader.accepts_asset_id("abcdefghijklmnopqrstuvwxyz", Some(true), Some(true)));
}

#[test]
fn patterns_are_the_documented_ones() {
    assert_eq!(
        STRICT_ID_PATTERN,
        r"^[a-fA-F0-9]{8}-[a-fA-F0-9]{4}-[a-fA-F0-9]{4}-[a-fA-F0-9]{4}-[a-fA-F0-9]{12}$"
    );
    assert_eq!(LOOSE_ID_PATTERN, r"^[a-zA-Z0-9][a-zA-Z0-9\-]{18,48}[a-zA-Z0-9]$");
}

#[test]
fn non_github_host_is_rejected() {
    let downloader = id_downloader();
    assert_eq!(
        downloader.build_source_url("https://example.com/file.jpg"),
        Err(AssetError::InvalidSourceUrl)
    );
    assert!(!downloader.is_valid_source_url("https://example.com/file.jpg"));
}

#[test]
fn github_url_is_accepted_unchanged() {
    let downloader = id_downloader();
    let url = "https://github.com/user-attachments/assets/1234abcd-1234-1234-1234-1234abcd1234";
    assert_eq!(downloader.build_source_url(url), Ok(url.to_string()));
    let other = "http://objects.githubusercontent.com/a/b.png?x=1";
    assert_eq!(downloader.build_source_url(other), Ok(other.to_string()));
}

#[test]
fn github_must_stand_in_the_host() {
    let downloader = id_downloader();
    assert!(!downloader.is_valid_source_url("https://example.com/github/file.jpg"));
    assert!(!downloader.is_valid_source_url("https://example.com/?q=github.com"));
    assert!(downloader.is_valid_source_url("https://user@github.example.org:8080/file.jpg"));
}

#[test]
fn url_needs_a_web_scheme() {
    let downloader = id_downloader();
    assert!(!downloader.is_valid_source_url("ftp://github.com/file.jpg"));
    assert!(!downloader.is_valid_source_url("github.com/file.jpg"));
    assert!(!downloader.is_valid_source_url(""));
    assert!(!downloader.is_valid_source_url("HTTPS://github.com/file.jpg"));
}

#[test]
fn malformed_url_is_rejected() {
    let downloader = id_downloader();
    assert_eq!(
        downloader.build_source_url("https://"),
        Err(AssetError::InvalidSourceUrl)
    );
    assert_eq!(
        downloader.build_source_url("https://github.com:notaport/x"),
        Err(AssetError::InvalidSourceUrl)
    );
}

#[test]
fn accepts_source_url_decides_from_the_host() {
    let downloader = id_downloader();
    assert!(downloader.accepts_source_url("https://a/b", Some("github.com")));
    assert!(downloader.accepts_source_url("http://a/b", Some("my-github")));
    assert!(!downloader.accepts_source_url("https://a/b", Some("example.com")));
    assert!(!downloader.accepts_source_url("https://a/b", Some("githu")));
    assert!(!downloader.accepts_source_url("https://a/b", None));
    assert!(!downloader.accepts_source_url("ftp://a/b", Some("github.com")));
}

#[test]
fn resolve_source_follows_the_mode() {
    let downloader = id_downloader();
    let id = "1234abcd-1234-1234-1234-1234abcd1234";
    let url = "https://github.com/user-attachments/assets/1234abcd-1234-1234-1234-1234abcd1234";
    assert_eq!(downloader.resolve_source(SourceMode::AssetId, id), Ok(url.to_string()));
    assert_eq!(downloader.resolve_source(SourceMode::AssetUrl, url), Ok(url.to_string()));
    assert_eq!(
        downloader.resolve_source(SourceMode::AssetId, url),
        Err(AssetError::InvalidAssetId)
    );
    assert_eq!(
        downloader.resolve_source(SourceMode::AssetUrl, id),
        Err(AssetError::InvalidSourceUrl)
    );
}
