use gh_asset::auth::HelperOutcome;
use gh_asset::destination::{
    is_absolute_path, join_paths, path_has_bad_file_name, path_is_within, PathProbe,
};
use gh_asset::downloader::AssetDownloader;
use gh_asset::error::AssetError;

const WORK: &str = "/home/user/project";

fn path_downloader() -> AssetDownloader {
    AssetDownloader::new(HelperOutcome::Exited {
        success: true,
        stdout: "fake_token".as_bytes().to_vec(),
        stderr: String::new(),
    })
    .unwrap()
}

fn in_work() -> PathProbe {
    PathProbe::ParentResolved(WORK.to_string())
}

#[test]
fn test_validate_destination_path_safe() {
    let downloader = path_downloader();

    // Safe relative paths
    assert!(downloader.validate_destination_path("test.png", WORK, &in_work()).is_ok());
    assert!(downloader.validate_destination_path("./test.png", WORK, &in_work()).is_ok());
    assert!(downloader
        .validate_destination_path("subdir/test.png", WORK, &PathProbe::Missing)
        .is_ok());
}

#[test]
fn test_validate_destination_path_unsafe() {
    let downloader = path_downloader();

    // Path traversal attempts
    assert!(downloader.validate_destination_path("../test.png", WORK, &in_work()).is_err());
    assert!(downloader
        .validate_destination_path("../../etc/passwd", WORK, &PathProbe::Missing)
        .is_err());
    assert!(downloader
        .validate_destination_path("/etc/passwd", WORK, &PathProbe::Missing)
        .is_err());
    assert!(downloader
        .validate_destination_path("/usr/bin/evil", WORK, &PathProbe::Missing)
        .is_err());
}

#[test]
fn accepted_destination_is_resolved_against_the_working_directory() {
    let downloader = path_downloader();
    assert_eq!(
        downloader.validate_destination_path("test.png", WORK, &in_work()),
        Ok("/home/user/project/test.png".to_string())
    );
    assert_eq!(
        downloader.validate_destination_path("./test.png", WORK, &in_work()),
        Ok("/home/user/project/./test.png".to_string())
    );
    assert_eq!(
        downloader.validate_destination_path("subdir/test.png", WORK, &PathProbe::Missing),
        Ok("/home/user/project/subdir/test.png".to_string())
    );
    assert_eq!(
        downloader.validate_destination_path(
            "subdir/test.png",
            WORK,
            &PathProbe::ParentResolved("/home/user/project/subdir".to_string())
        ),
        Ok("/home/user/project/subdir/test.png".to_string())
    );
    assert_eq!(
        downloader.validate_destination_path(
            "test.png",
            WORK,
            &PathProbe::Resolved("/home/user/project/test.png".to_string())
        ),
        Ok("/home/user/project/test.png".to_string())
    );
    assert_eq!(
        downloader.validate_destination_path("/tmp/out/test.png", WORK, &PathProbe::Missing),
        Ok("/tmp/out/test.png".to_string())
    );
    assert_eq!(
        downloader.validate_destination_path(".", WORK, &PathProbe::Resolved(WORK.to_string())),
        Ok("/home/user/project/.".to_string())
    );
}

#[test]
fn traversal_is_named() {
    let downloader = path_downloader();
    for destination in ["../test.png", "../../etc/passwd", "a/../b", "a..b", "..", "/tmp/x/.."] {
        assert_eq!(
            downloader.validate_destination_path(destination, WORK, &in_work()),
            Err(AssetError::PathTraversal)
        );
        assert_eq!(downloader.screen_destination(destination), Err(AssetError::PathTraversal));
    }
}

#[test]
fn system_directories_are_named() {
    let downloader = path_downloader();
    for destination in [
        "/etc/passwd",
        "/usr/bin/evil",
        "/var/log/x",
        "/sys/kernel",
        "/proc/1/mem",
        "/root/.ssh/id",
        "/boot/vmlinuz",
        "/etc",
        "/etcetera/file",
    ] {
        assert_eq!(
            downloader.validate_destination_path(destination, WORK, &PathProbe::Missing),
            Err(AssetError::SystemDirectoryDenied)
        );
        assert_eq!(
            downloader.screen_destination(destination),
            Err(AssetError::SystemDirectoryDenied)
        );
    }
    // the same names below the working directory are no system directories
    assert_eq!(downloader.screen_destination("etc/passwd"), Ok(()));
    assert_eq!(downloader.screen_destination("/home/etc/passwd"), Ok(()));
    assert_eq!(downloader.screen_destination("/tmp/file"), Ok(()));
}

#[test]
fn traversal_is_checked_before_system_directories() {
    let downloader = path_downloader();
    assert_eq!(
        downloader.validate_destination_path("/etc/../passwd", WORK, &PathProbe::Missing),
        Err(AssetError::PathTraversal)
    );
}

#[test]
fn canonical_form_outside_the_working_directory_is_refused() {
    let downloader = path_downloader();
    // a symbolic link that leaves the working directory
    assert_eq!(
        downloader.validate_destination_path(
            "link/test.png",
            WORK,
            &PathProbe::Resolved("/srv/elsewhere/test.png".to_string())
        ),
        Err(AssetError::OutsideWorkingDirectory)
    );
    assert_eq!(
        downloader.validate_destination_path(
            "link/test.png",
            WORK,
            &PathProbe::ParentResolved("/srv/elsewhere".to_string())
        ),
        Err(AssetError::OutsideWorkingDirectory)
    );
    // a sibling whose name only begins like the working directory
    assert_eq!(
        downloader.validate_destination_path(
            "link/test.png",
            WORK,
            &PathProbe::ParentResolved("/home/user/project2".to_string())
        ),
        Err(AssetError::OutsideWorkingDirectory)
    );
    // the parent of the working directory
    assert_eq!(
        downloader.validate_destination_path(
            "link",
            WORK,
            &PathProbe::Resolved("/home/user".to_string())
        ),
        Err(AssetError::OutsideWorkingDirectory)
    );
}

#[test]
fn containment_is_asked_of_relative_destinations_only() {
    let downloader = path_downloader();
    assert_eq!(
        downloader.validate_destination_path(
            "/tmp/test.png",
            WORK,
            &PathProbe::Resolved("/srv/elsewhere/test.png".to_string())
        ),
        Ok("/tmp/test.png".to_string())
    );
    assert_eq!(
        downloader.validate_destination_path(
            "/tmp/test.png",
            WORK,
            &PathProbe::ParentUnresolved("denied".to_string())
        ),
        Ok("/tmp/test.png".to_string())
    );
}

#[test]
fn unresolvable_parent_is_an_io_error() {
    let downloader = path_downloader();
    assert_eq!(
        downloader.validate_destination_path(
            "sub/test.png",
            WORK,
            &PathProbe::ParentUnresolved("permission denied".to_string())
        ),
        Err(AssetError::IoError("permission denied".to_string()))
    );
}

#[test]
fn blank_or_nul_file_names_are_refused() {
    let downloader = path_downloader();
    for destination in [" ", "sub/   ", "sub/\t", "a\0b", "sub/file\0.png", "/tmp/ /", "/tmp/\u{2003}"] {
        assert_eq!(
            downloader.validate_destination_path(destination, WORK, &PathProbe::Missing),
            Err(AssetError::InvalidFilename)
        );
    }
}

#[test]
fn containment_is_checked_before_the_file_name() {
    let downloader = path_downloader();
    assert_eq!(
        downloader.validate_destination_path(
            "link/ ",
            WORK,
            &PathProbe::ParentResolved("/srv/elsewhere".to_string())
        ),
        Err(AssetError::OutsideWorkingDirectory)
    );
}

#[test]
fn destinations_without_a_file_name_pass_the_name_check() {
    let downloader = path_downloader();
    assert_eq!(
        downloader.validate_destination_path("", WORK, &PathProbe::Resolved(WORK.to_string())),
        Ok("/home/user/project/".to_string())
    );
    assert_eq!(
        downloader.validate_destination_path("/", WORK, &PathProbe::Missing),
        Ok("/".to_string())
    );
    assert_eq!(
        downloader.validate_destination_path("./", WORK, &PathProbe::Resolved(WORK.to_string())),
        Ok("/home/user/project/./".to_string())
    );
}

#[test]
fn file_name_is_the_last_name_of_the_path() {
    assert!(!path_has_bad_file_name("a/b/c.png"));
    assert!(!path_has_bad_file_name(" /c.png"));
    assert!(path_has_bad_file_name("c.png/ "));
    assert!(path_has_bad_file_name("c.png/ /"));
    assert!(path_has_bad_file_name("c.png/ /."));
    assert!(path_has_bad_file_name("c.png/ //./"));
    assert!(!path_has_bad_file_name(""));
    assert!(!path_has_bad_file_name("."));
    assert!(!path_has_bad_file_name("/"));
    assert!(!path_has_bad_file_name(" /.."));
    assert!(!path_has_bad_file_name("..."));
}

#[test]
fn join_adds_a_separator_where_one_is_missing() {
    assert_eq!(join_paths("/a/b", "c"), "/a/b/c");
    assert_eq!(join_paths("/a/b/", "c"), "/a/b/c");
    assert_eq!(join_paths("/", "c"), "/c");
    assert_eq!(join_paths("", "c"), "c");
    assert_eq!(join_paths("/a/b", ""), "/a/b/");
    assert_eq!(join_paths("/a/b", "/c/d"), "/c/d");
    assert_eq!(join_paths("a", "b/c"), "a/b/c");
}

#[test]
fn resolve_destination_is_the_join() {
    let downloader = path_downloader();
    assert_eq!(downloader.resolve_destination("test.png", WORK), "/home/user/project/test.png");
    assert_eq!(downloader.resolve_destination("/tmp/test.png", WORK), "/tmp/test.png");
}

#[test]
fn absolute_paths_start_at_the_root() {
    assert!(is_absolute_path("/"));
    assert!(is_absolute_path("/a"));
    assert!(!is_absolute_path(""));
    assert!(!is_absolute_path("a/b"));
    assert!(!is_absolute_path("./a"));
}

#[test]
fn within_compares_components() {
    assert!(path_is_within("/a/b", "/a/b"));
    assert!(path_is_within("/a/b/c", "/a/b"));
    assert!(path_is_within("/a/b/c/d.png", "/a/b"));
    assert!(path_is_within("/a/b", "/"));
    assert!(path_is_within("/a//b/./c/", "/a/b/"));
    assert!(path_is_within("/a/b", "/a/./b//"));
    assert!(!path_is_within("/a/bc", "/a/b"));
    assert!(!path_is_within("/a", "/a/b"));
    assert!(!path_is_within("/x/a/b", "/a/b"));
    assert!(!path_is_within("a/b", "/a/b"));
    assert!(!path_is_within("/a/b", "a/b"));
    assert!(path_is_within("a/b", "a"));
    assert!(path_is_within("a/b", ""));
    assert!(path_is_within("./a/b", "."));
    assert!(path_is_within("./a/b", "./a"));
    assert!(!path_is_within("./a/b", "a"));
    assert!(!path_is_within("a/b", "./a"));
    assert!(!path_is_within("/a/b", "."));
    assert!(path_is_within("/a/b", ""));
    assert!(path_is_within("a/./b", "a/b"));
}
