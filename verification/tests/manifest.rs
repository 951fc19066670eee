use ndk_build::manifest::{
    default_activity_name, default_config_changes, default_namespace, opengles_version_string,
    Activity, AndroidManifest, Application, Feature, IntentFilter, Sdk,
};

#[test]
fn manifest_defaults() {
    let m = AndroidManifest::default();
    assert_eq!(m.ns_android, "http://schemas.android.com/apk/res/android");
    assert_eq!(m.package, "");
    assert_eq!(m.sdk.min_sdk_version, Some(29));
    assert_eq!(m.sdk.target_sdk_version, None);
    assert_eq!(m.sdk.max_sdk_version, None);
    assert!(m.uses_feature.is_empty());
    assert!(m.queries.is_none());
    assert_eq!(m.application.activity.name, "android.app.NativeActivity");
    assert_eq!(
        m.application.activity.config_changes.as_deref(),
        Some("orientation|keyboardHidden|screenSize")
    );
    assert!(!m.application.has_code);
}

#[test]
fn element_defaults() {
    let a = Activity::default();
    assert!(a.intent_filter.is_empty() && a.label.is_none());
    let app = Application::default();
    assert_eq!(app.label, "");
    assert!(app.debuggable.is_none());
    let sdk = Sdk::default();
    assert_eq!(sdk.min_sdk_version, Some(29));
    assert!(IntentFilter::default().actions.is_empty());
    assert!(Feature::default().opengles_version.is_none());
    assert_eq!(default_namespace(), "http://schemas.android.com/apk/res/android");
    assert_eq!(default_activity_name(), "android.app.NativeActivity");
    assert_eq!(
        default_config_changes().as_deref(),
        Some("orientation|keyboardHidden|screenSize")
    );
}

#[test]
fn opengles_version_text() {
    assert_eq!(opengles_version_string(3, 2), "0x00030002");
    assert_eq!(opengles_version_string(0, 0), "0x00000000");
    assert_eq!(opengles_version_string(255, 10), "0x02550010");
    for (a, b) in [(1u8, 0u8), (2, 0), (3, 1), (99, 100)] {
        assert_eq!(opengles_version_string(a, b), format!("0x{:04}{:04}", a, b));
    }
}
