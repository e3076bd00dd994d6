use std::io::{Cursor, Write};
use zip::write::SimpleFileOptions;
use zip::ZipWriter;
use zxp_manager::archive::{
    check_removable, entry_path_escapes, install_dir_name, install_zxp, plan_install,
    FileOperationError,
};
use zxp_manager::plugin::IoFailure;

const MANIFEST: &str = r#"<ExtensionManifest ExtensionBundleId="com.example.tool.panel" ExtensionBundleVersion="1.0"/>"#;
const ROOT: &str = "/Library/Application Support/Adobe/CEP/extensions/";

fn archive(entries: &[(&str, &str)]) -> Vec<u8> {
    let mut w = ZipWriter::new(Cursor::new(Vec::new()));
    for (name, body) in entries {
        w.start_file(*name, SimpleFileOptions::default()).unwrap();
        w.write_all(body.as_bytes()).unwrap();
    }
    w.finish().unwrap().into_inner()
}

fn err_of(r: Result<zxp_manager::archive::InstallPlan, FileOperationError>) -> FileOperationError {
    match r {
        Ok(_) => panic!("install unexpectedly succeeded"),
        Err(e) => e,
    }
}

#[test]
fn install_plans_target_from_bundle_identifier() {
    let data = archive(&[("CSXS/manifest.xml", MANIFEST), ("index.html", "<html/>")]);
    let plan = install_zxp("/tmp/tool.zxp", true, Some(data)).unwrap();
    assert_eq!(plan.target_dir, format!("{}com.example.tool", ROOT));
    assert_eq!(plan.entry_names, vec!["CSXS/manifest.xml".to_string(), "index.html".to_string()]);
}

#[test]
fn install_uppercase_extension_proceeds() {
    let data = archive(&[("CSXS/manifest.xml", MANIFEST)]);
    let plan = install_zxp("/tmp/renamed.ZXP", true, Some(data)).unwrap();
    assert_eq!(plan.target_dir, format!("{}com.example.tool", ROOT));
    // A renamed file that is no archive gets past the extension check and fails on opening.
    assert_eq!(err_of(install_zxp("/tmp/renamed.ZXP", true, Some(b"not a zip".to_vec()))), FileOperationError::InvalidZip);
}

#[test]
fn install_is_repeatable() {
    let data = archive(&[("CSXS/manifest.xml", MANIFEST), ("js/main.js", "x")]);
    let first = install_zxp("/tmp/t.zxp", true, Some(data.clone())).unwrap();
    let second = install_zxp("/tmp/t.zxp", true, Some(data)).unwrap();
    assert_eq!(first.target_dir, second.target_dir);
    assert_eq!(first.entry_names, second.entry_names);
}

#[test]
fn install_rejects_parent_segments_at_any_depth() {
    for bad in ["../evil.txt", "a/../../evil.txt", "a/b/c/..", "a\\..\\evil", "/etc/passwd"] {
        let data = archive(&[("CSXS/manifest.xml", MANIFEST), (bad, "x")]);
        assert_eq!(err_of(install_zxp("/tmp/t.zxp", true, Some(data))), FileOperationError::ExtractError, "{}", bad);
    }
}

#[test]
fn install_preconditions() {
    assert_eq!(err_of(install_zxp("/tmp/t.zxp", false, None)), FileOperationError::FileNotFound);
    assert_eq!(err_of(install_zxp("/tmp/t.zip", true, None)), FileOperationError::InvalidExtension);
    assert_eq!(err_of(install_zxp("/tmp/t.zxp", true, None)), FileOperationError::FileNotFound);
}

#[test]
fn install_without_manifest_is_invalid_zip() {
    let data = archive(&[("index.html", "x")]);
    assert_eq!(err_of(install_zxp("/tmp/t.zxp", true, Some(data))), FileOperationError::InvalidZip);
    let data = archive(&[("CSXS/manifest.xml", "<ExtensionManifest/>")]);
    assert_eq!(err_of(install_zxp("/tmp/t.zxp", true, Some(data))), FileOperationError::InvalidZip);
}

#[test]
fn plan_from_names_and_manifest() {
    let names = vec!["CSXS/manifest.xml".to_string(), "a/b.txt".to_string()];
    assert_eq!(plan_install(&names, Some(MANIFEST.as_bytes())).unwrap(), format!("{}com.example.tool", ROOT));
    assert_eq!(plan_install(&names, None).unwrap_err(), FileOperationError::InvalidZip);
    assert_eq!(plan_install(&names, Some("<x/>".as_bytes())).unwrap_err(), FileOperationError::InvalidZip);
    let bad = vec!["x/../y".to_string()];
    assert_eq!(plan_install(&bad, Some(MANIFEST.as_bytes())).unwrap_err(), FileOperationError::ExtractError);
}

#[test]
fn install_names() {
    assert_eq!(install_dir_name("com.example.tool.panel"), "com.example.tool");
    assert_eq!(install_dir_name("com.example.tool.panel.main"), "com.example.tool");
    assert_eq!(install_dir_name("com.example.tool"), "com.example.tool");
    assert_eq!(install_dir_name(".panel"), "");
}

#[test]
fn entry_paths() {
    assert!(entry_path_escapes(".."));
    assert!(entry_path_escapes("../x"));
    assert!(entry_path_escapes("a/b/../../../x"));
    assert!(entry_path_escapes("/abs"));
    assert!(!entry_path_escapes("a/..b/c"));
    assert!(!entry_path_escapes("a/b..c"));
    assert!(!entry_path_escapes("...x"));
    assert!(!entry_path_escapes("CSXS/manifest.xml"));
    assert!(!entry_path_escapes(""));
}

#[test]
fn remove_checks() {
    assert_eq!(check_removable(false, false), Err(FileOperationError::FileNotFound));
    assert_eq!(check_removable(true, false), Err(FileOperationError::InvalidExtension));
    assert_eq!(check_removable(true, true), Ok(()));
    assert_eq!(FileOperationError::from_io(IoFailure::PermissionDenied), FileOperationError::PermissionDenied);
    assert_eq!(FileOperationError::from_io(IoFailure::NotFound), FileOperationError::ExtractError);
    assert_eq!(FileOperationError::InvalidExtension.message(), "File must have .zxp extension");
}
