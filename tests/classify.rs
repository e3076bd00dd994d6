use zxp_manager::plugin::{determine_plugin_type, PluginError, IoFailure, PluginType};

#[test]
fn classification_by_prefix() {
    assert_eq!(determine_plugin_type("com.adobe.foo"), PluginType::Native);
    assert_eq!(determine_plugin_type("com.example.bar"), PluginType::ThirdParty);
    assert_eq!(determine_plugin_type("com.adobe."), PluginType::Native);
    assert_eq!(determine_plugin_type("com.adobe"), PluginType::ThirdParty);
    assert_eq!(determine_plugin_type("org.com.adobe.x"), PluginType::ThirdParty);
    assert_eq!(determine_plugin_type(""), PluginType::ThirdParty);
}

#[test]
fn plugin_error_mapping_and_text() {
    assert_eq!(PluginError::from_io(IoFailure::PermissionDenied), PluginError::PermissionDenied);
    assert_eq!(PluginError::from_io(IoFailure::NotFound), PluginError::DirectoryNotFound);
    assert_eq!(PluginError::from_io(IoFailure::Other), PluginError::DirectoryNotFound);
    assert_eq!(PluginError::InvalidManifest.message(), "Invalid manifest");
    assert_eq!(PluginError::ManifestNotFound.message(), "Manifest not found");
}
