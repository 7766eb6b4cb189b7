use buildtools_runner::adoptium::{
    check_download, distinct_majors, download_url, first_unavailable, get_java_install,
    install_dir, missing_versions, InstalledRuntime, Releases,
};
use buildtools_runner::error::RunError;
use buildtools_runner::mojang::{JavaVersion, Package};
use buildtools_runner::os::{ArchiveFormat, OS};

fn package(id: &str, major: u8) -> Package {
    Package { java_version: JavaVersion { major_version: major }, id: id.to_string() }
}

fn segs(parts: &[&str]) -> Vec<String> {
    parts.iter().map(|p| p.to_string()).collect()
}

#[test]
fn distinct_majors_keeps_first_need_order() {
    let packages = vec![
        package("1.20.1", 17),
        package("1.19.4", 17),
        package("1.20.5", 21),
        package("1.16.5", 8),
        package("1.21", 21),
    ];
    assert_eq!(distinct_majors(&packages), vec![17, 21, 8]);
    assert_eq!(distinct_majors(&Vec::new()), Vec::<u8>::new());
}

#[test]
fn first_unavailable_finds_first_missing_release() {
    let releases = Releases { available_releases: vec![8, 11, 17, 21] };
    assert_eq!(first_unavailable(&vec![17, 8, 21], &releases), None);
    assert_eq!(first_unavailable(&vec![17, 16, 22], &releases), Some(16));
    assert_eq!(first_unavailable(&Vec::new(), &releases), None);
}

#[test]
fn missing_versions_skips_installed_ones() {
    assert_eq!(missing_versions(&vec![17, 21, 8], &vec![21]), vec![17, 8]);
    assert_eq!(missing_versions(&vec![17, 21, 8], &Vec::new()), vec![17, 21, 8]);
}

#[test]
fn missing_versions_lists_each_version_once() {
    assert_eq!(missing_versions(&vec![8, 8], &Vec::new()), vec![8]);
    assert_eq!(missing_versions(&vec![17, 8, 17, 21, 8], &vec![21]), vec![17, 8]);
    assert_eq!(missing_versions(&vec![21, 21], &vec![21]), Vec::<u8>::new());
}

#[test]
fn second_provisioning_downloads_nothing() {
    let majors = vec![17, 21, 8];
    let installed = vec![21];
    let first = missing_versions(&majors, &installed);
    assert_eq!(first, vec![17, 8]);
    let mut after = installed.clone();
    after.extend(first.iter().copied());
    assert_eq!(missing_versions(&majors, &after), Vec::<u8>::new());
}

#[test]
fn download_url_names_version_platform_and_architecture() {
    assert_eq!(
        download_url(17, OS::Linux, "x86_64"),
        "https://api.adoptium.net/v3/binary/latest/17/ga/linux/x86_64/jdk/hotspot/normal/eclipse"
    );
    assert_eq!(
        download_url(8, OS::MacOS, "aarch64"),
        "https://api.adoptium.net/v3/binary/latest/8/ga/mac/aarch64/jdk/hotspot/normal/eclipse"
    );
    assert_eq!(
        download_url(21, OS::Windows, "x86_64"),
        "https://api.adoptium.net/v3/binary/latest/21/ga/windows/x86_64/jdk/hotspot/normal/eclipse"
    );
}

#[test]
fn non_success_download_fails_before_extraction() {
    assert_eq!(
        check_download(17, OS::Linux, 404),
        Err(RunError::DownloadFailed { major: 17, status: 404 })
    );
    assert_eq!(
        check_download(21, OS::Windows, 500),
        Err(RunError::DownloadFailed { major: 21, status: 500 })
    );
    assert_eq!(
        check_download(17, OS::Linux, 199),
        Err(RunError::DownloadFailed { major: 17, status: 199 })
    );
    assert_eq!(
        check_download(17, OS::Linux, 300),
        Err(RunError::DownloadFailed { major: 17, status: 300 })
    );
}

#[test]
fn success_download_is_unpacked_by_platform_format() {
    assert_eq!(check_download(17, OS::Windows, 200), Ok(ArchiveFormat::Zip));
    assert_eq!(check_download(17, OS::Linux, 200), Ok(ArchiveFormat::TarGz));
    assert_eq!(check_download(17, OS::MacOS, 299), Ok(ArchiveFormat::TarGz));
}

#[test]
fn install_dir_is_keyed_by_major_version() {
    assert_eq!(install_dir(&segs(&["/cache", "java"]), 17), segs(&["/cache", "java", "17"]));
}

#[test]
fn java_install_descends_into_single_top_directory() {
    let root = segs(&["/cache/java"]);
    let r = get_java_install(OS::Linux, 17, &root, &segs(&["jdk-17.0.9+9"]));
    assert_eq!(
        r,
        Ok(InstalledRuntime {
            major_version: 17,
            executable: segs(&["/cache/java", "17", "jdk-17.0.9+9", "bin", "java"]),
        })
    );
    let r = get_java_install(OS::MacOS, 8, &root, &segs(&["jdk8u392-b08"]));
    assert_eq!(
        r.unwrap().executable,
        segs(&["/cache/java", "8", "jdk8u392-b08", "Contents", "Home", "bin", "java"])
    );
}

#[test]
fn java_install_without_single_top_directory_is_malformed() {
    let root = segs(&["/cache/java"]);
    assert_eq!(
        get_java_install(OS::Linux, 17, &root, &Vec::new()),
        Err(RunError::MalformedArchive(17))
    );
    assert_eq!(
        get_java_install(OS::Windows, 21, &root, &segs(&["a", "b"])),
        Err(RunError::MalformedArchive(21))
    );
}
