use zxp_manager::manifest::{
    parse_manifest_document, parse_manifest_steps, parse_manifest_xml, XmlAttribute, XmlStep,
};
use zxp_manager::plugin::PluginError;

const FULL: &str = r#"<?xml version="1.0" encoding="UTF-8"?>
<ExtensionManifest Version="7.0" ExtensionBundleId="com.example.tool" ExtensionBundleVersion="1.2.3" ExtensionBundleName="Example Tool">
  <ExtensionList><Extension Id="com.example.tool.panel" Version="1.2.3"/></ExtensionList>
</ExtensionManifest>"#;

#[test]
fn manifest_all_attributes() {
    let info = parse_manifest_xml(FULL.as_bytes()).unwrap();
    assert_eq!(info.bundle_id, "com.example.tool");
    assert_eq!(info.name, "Example Tool");
    assert_eq!(info.version, "1.2.3");
}

#[test]
fn manifest_name_falls_back_to_identifier() {
    let info = parse_manifest_xml(r#"<ExtensionManifest ExtensionBundleId="com.x.y" ExtensionBundleVersion="2"></ExtensionManifest>"#.as_bytes()).unwrap();
    assert_eq!(info.name, "com.x.y");
    assert_eq!(info.version, "2");
}

#[test]
fn manifest_version_defaults_to_unknown() {
    let info = parse_manifest_xml(r#"<ExtensionManifest ExtensionBundleId="com.x.y" ExtensionBundleName="N"></ExtensionManifest>"#.as_bytes()).unwrap();
    assert_eq!(info.version, "Unknown");
    assert_eq!(info.name, "N");
}

#[test]
fn manifest_without_identifier_is_invalid() {
    let r = parse_manifest_xml(r#"<ExtensionManifest ExtensionBundleName="N"></ExtensionManifest>"#.as_bytes());
    assert_eq!(r.unwrap_err(), PluginError::InvalidManifest);
    let r = parse_manifest_xml(r#"<ExtensionManifest ExtensionBundleId=""></ExtensionManifest>"#.as_bytes());
    assert_eq!(r.unwrap_err(), PluginError::InvalidManifest);
    let r = parse_manifest_xml("<Other/>".as_bytes());
    assert_eq!(r.unwrap_err(), PluginError::InvalidManifest);
    let r = parse_manifest_xml("".as_bytes());
    assert_eq!(r.unwrap_err(), PluginError::InvalidManifest);
}

#[test]
fn manifest_malformed_markup_is_invalid() {
    let r = parse_manifest_xml(r#"<a><b></a>"#.as_bytes());
    assert_eq!(r.unwrap_err(), PluginError::InvalidManifest);
    let r = parse_manifest_xml(r#"<ExtensionManifest ExtensionBundleId="a" ExtensionBundleId="b"></ExtensionManifest>"#.as_bytes());
    assert_eq!(r.unwrap_err(), PluginError::InvalidManifest);
}

#[test]
fn manifest_self_closing_element() {
    let info = parse_manifest_xml(r#"<ExtensionManifest ExtensionBundleId="com.a.b"/>"#.as_bytes()).unwrap();
    assert_eq!(info.bundle_id, "com.a.b");
}

#[test]
fn manifest_first_identified_element_decides() {
    let doc = r#"<root><ExtensionManifest ExtensionBundleId=""/><ExtensionManifest ExtensionBundleId="first"/><ExtensionManifest ExtensionBundleId="second"/></root>"#;
    assert_eq!(parse_manifest_xml(doc.as_bytes()).unwrap().bundle_id, "first");
}

#[test]
fn manifest_unreadable_document() {
    assert_eq!(parse_manifest_document(None).unwrap_err(), PluginError::ManifestNotFound);
    assert_eq!(parse_manifest_document(Some(FULL.as_bytes())).unwrap().bundle_id, "com.example.tool");
}

fn attr(k: &str, v: &[u8]) -> Option<XmlAttribute> {
    Some(XmlAttribute { key: k.as_bytes().to_vec(), value: v.to_vec() })
}

#[test]
fn manifest_steps_lossy_decoding() {
    let steps = vec![
        XmlStep::Other,
        XmlStep::Element { name: b"ExtensionManifest".to_vec(), attributes: vec![attr("ExtensionBundleId", b"com.a\xffb")] },
    ];
    let info = parse_manifest_steps(&steps).unwrap();
    assert_eq!(info.bundle_id, "com.a\u{FFFD}b");
    assert_eq!(info.version, "Unknown");
}

#[test]
fn manifest_steps_unreadable_attribute_or_markup() {
    let steps = vec![XmlStep::Element {
        name: b"ExtensionManifest".to_vec(),
        attributes: vec![attr("ExtensionBundleId", b"x"), None],
    }];
    assert_eq!(parse_manifest_steps(&steps).unwrap_err(), PluginError::InvalidManifest);
    let steps = vec![XmlStep::Malformed, XmlStep::Element {
        name: b"ExtensionManifest".to_vec(),
        attributes: vec![attr("ExtensionBundleId", b"x")],
    }];
    assert_eq!(parse_manifest_steps(&steps).unwrap_err(), PluginError::InvalidManifest);
    let steps = vec![XmlStep::Element {
        name: b"ExtensionManifest".to_vec(),
        attributes: vec![attr("ExtensionBundleId", b"x"), attr("ExtensionBundleId", b"y")],
    }];
    assert_eq!(parse_manifest_steps(&steps).unwrap().bundle_id, "y");
}

#[test]
fn manifest_document_with_irregular_bytes_decodes_lossily() {
    let mut doc = b"<ExtensionManifest ExtensionBundleId=\"com.a.b\" ExtensionBundleName=\"Caf".to_vec();
    doc.push(0xE9);
    doc.extend_from_slice(b"\"/>");
    let info = parse_manifest_xml(&doc).unwrap();
    assert_eq!(info.bundle_id, "com.a.b");
    assert_eq!(info.name, "Caf\u{FFFD}");
    assert_eq!(info.version, "Unknown");
}

#[test]
fn manifest_example_with_child_element() {
    let doc = r#"<ExtensionManifest ExtensionBundleId="com.example.foo" ExtensionBundleVersion="1.2.0"><Author/></ExtensionManifest>"#;
    let info = parse_manifest_xml(doc.as_bytes()).unwrap();
    assert_eq!(info.bundle_id, "com.example.foo");
    assert_eq!(info.name, "com.example.foo");
    assert_eq!(info.version, "1.2.0");
}

#[test]
fn manifest_malformed_after_empty_identifier() {
    let doc = r#"<Root><ExtensionManifest ExtensionBundleId=""/></Wrong>"#;
    assert_eq!(parse_manifest_xml(doc.as_bytes()).unwrap_err(), PluginError::InvalidManifest);
}
