use wasi_test_generator::version::WasiVersion;

#[test]
fn version_gives_its_toolchain_and_directory() {
    let version = WasiVersion::new("nightly-2019-09-13".to_string(), "unstable".to_string());
    assert_eq!(version.get_compiler_toolchain(), "nightly-2019-09-13");
    assert_eq!(version.get_directory_name(), "unstable");
    assert_eq!(version.toolchain, "nightly-2019-09-13");
    assert_eq!(version.directory_name, "unstable");
}
