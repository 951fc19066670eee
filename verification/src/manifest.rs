//! The Android manifest: its elements as plain data, their default values, and
//! the attribute text that some of them are written with.

use vstd::prelude::*;
use crate::text::{digit_char, push_char};
use crate::uid::{decimal_value, is_digit, lemma_digit_char};

verus! {

/// Android manifest element, containing an [`Application`] element.
#[derive(Clone, Debug)]
pub struct AndroidManifest {
    pub ns_android: String,
    pub package: String,
    pub shared_user_id: Option<String>,
    pub version_code: Option<u32>,
    pub version_name: Option<String>,
    pub install_location: Option<String>,
    pub sdk: Sdk,
    pub uses_feature: Vec<Feature>,
    pub uses_permission: Vec<Permission>,
    pub queries: Option<Queries>,
    pub application: Application,
}

/// Android application element, containing an [`Activity`] element.
#[derive(Clone, Debug)]
pub struct Application {
    pub debuggable: Option<bool>,
    pub theme: Option<String>,
    pub has_code: bool,
    pub icon: Option<String>,
    pub label: String,
    pub extract_native_libs: Option<bool>,
    pub uses_cleartext_traffic: Option<bool>,
    pub meta_data: Vec<MetaData>,
    pub activity: Activity,
    pub receivers: Vec<Receiver>,
    pub profileable: Option<Profileable>,
}

/// Android activity element.
#[derive(Clone, Debug)]
pub struct Activity {
    pub config_changes: Option<String>,
    pub label: Option<String>,
    pub launch_mode: Option<String>,
    pub name: String,
    pub orientation: Option<String>,
    pub exported: Option<bool>,
    pub resizeable_activity: Option<bool>,
    pub always_retain_task_state: Option<bool>,
    pub meta_data: Vec<MetaData>,
    /// If no `MAIN` action exists in any intent filter, a default `MAIN` filter is serialized by `cargo-apk`.
    pub intent_filter: Vec<IntentFilter>,
}

/// Android receiver element.
#[derive(Clone, Debug)]
pub struct Receiver {
    pub name: String,
    pub enabled: Option<bool>,
    pub exported: Option<bool>,
    pub intent_filter: Vec<IntentFilter>,
}

/// Android profileable element.
#[derive(Clone, Debug)]
pub struct Profileable {
    pub shell: Option<bool>,
    pub enabled: Option<bool>,
}

/// Android intent filter element.
#[derive(Clone, Debug)]
pub struct IntentFilter {
    /// Written as `<action android:name="..." />` elements.
    pub actions: Vec<String>,
    /// Written as `<category android:name="..." />` elements.
    pub categories: Vec<String>,
    pub data: Vec<IntentFilterData>,
}

/// Android intent filter data element.
#[derive(Clone, Debug)]
pub struct IntentFilterData {
    pub scheme: Option<String>,
    pub host: Option<String>,
    pub port: Option<String>,
    pub path: Option<String>,
    pub path_pattern: Option<String>,
    pub path_prefix: Option<String>,
    pub mime_type: Option<String>,
}

/// Android meta-data element.
#[derive(Clone, Debug)]
pub struct MetaData {
    pub name: String,
    pub value: String,
}

/// Android uses-feature element.
#[derive(Clone, Debug)]
pub struct Feature {
    pub name: Option<String>,
    pub required: Option<bool>,
    /// The `version` field is currently used for the following features:
    ///
    /// - `name="android.hardware.vulkan.compute"`: The minimum level of compute features required.
    /// - `name="android.hardware.vulkan.level"`: The minimum Vulkan requirements.
    /// - `name="android.hardware.vulkan.version"`: Represents the value of Vulkan's
    ///   `VkPhysicalDeviceProperties::apiVersion`.
    pub version: Option<u32>,
    /// Written as the `glEsVersion` attribute, see [`opengles_version_string`].
    pub opengles_version: Option<(u8, u8)>,
}

/// Android uses-permission element.
#[derive(Clone, Debug)]
pub struct Permission {
    pub name: String,
    pub max_sdk_version: Option<u32>,
}

/// Android package element of a queries element.
#[derive(Clone, Debug)]
pub struct Package {
    pub name: String,
}

/// Android provider element of a queries element.
#[derive(Clone, Debug)]
pub struct QueryProvider {
    pub authorities: String,
    // The specs say only an `authorities` attribute is required for providers contained in a `queries` element
    // however this is required for aapt support and should be made optional if/when cargo-apk migrates to aapt2
    pub name: String,
}

/// Android queries element.
#[derive(Clone, Debug)]
pub struct Queries {
    pub package: Vec<Package>,
    pub intent: Vec<IntentFilter>,
    pub provider: Vec<QueryProvider>,
}

/// Android uses-sdk element.
#[derive(Clone, Debug)]
pub struct Sdk {
    pub min_sdk_version: Option<u32>,
    pub target_sdk_version: Option<u32>,
    pub max_sdk_version: Option<u32>,
}

pub open spec fn android_namespace() -> Seq<char> {
    "http://schemas.android.com/apk/res/android"@
}

pub open spec fn native_activity_name() -> Seq<char> {
    "android.app.NativeActivity"@
}

pub open spec fn default_config_changes_value() -> Seq<char> {
    "orientation|keyboardHidden|screenSize"@
}

/// The Android XML namespace.
pub fn default_namespace() -> (res: String)
    ensures
        res@ == android_namespace(),
{
    "http://schemas.android.com/apk/res/android".to_owned()
}

/// The activity that a manifest names when it names none.
pub fn default_activity_name() -> (res: String)
    ensures
        res@ == native_activity_name(),
{
    "android.app.NativeActivity".to_owned()
}

/// The configuration changes that the activity handles itself by default.
pub fn default_config_changes() -> (res: Option<String>)
    ensures
        res matches Some(s) && s@ == default_config_changes_value(),
{
    Some("orientation|keyboardHidden|screenSize".to_owned())
}

impl Sdk {
    pub open spec fn is_default(self) -> bool {
        self.min_sdk_version == Some(29u32) && self.target_sdk_version is None
            && self.max_sdk_version is None
    }
}

impl Default for Sdk {
    fn default() -> (res: Self)
        ensures
            res.is_default(),
    {
        Sdk { min_sdk_version: Some(29), target_sdk_version: None, max_sdk_version: None }
    }
}

impl Activity {
    pub open spec fn is_default(self) -> bool {
        &&& self.config_changes matches Some(c) && c@ == default_config_changes_value()
        &&& self.label is None
        &&& self.launch_mode is None
        &&& self.name@ == native_activity_name()
        &&& self.orientation is None
        &&& self.exported is None
        &&& self.resizeable_activity is None
        &&& self.always_retain_task_state is None
        &&& self.meta_data@.len() == 0
        &&& self.intent_filter@.len() == 0
    }
}

impl Default for Activity {
    fn default() -> (res: Self)
        ensures
            res.is_default(),
    {
        Activity {
            config_changes: default_config_changes(),
            label: None,
            launch_mode: None,
            name: default_activity_name(),
            orientation: None,
            exported: None,
            resizeable_activity: None,
            always_retain_task_state: None,
            meta_data: Vec::new(),
            intent_filter: Vec::new(),
        }
    }
}

impl Application {
    pub open spec fn is_default(self) -> bool {
        &&& self.debuggable is None
        &&& self.theme is None
        &&& !self.has_code
        &&& self.icon is None
        &&& self.label@.len() == 0
        &&& self.extract_native_libs is None
        &&& self.uses_cleartext_traffic is None
        &&& self.meta_data@.len() == 0
        &&& self.activity.is_default()
        &&& self.receivers@.len() == 0
        &&& self.profileable is None
    }
}

impl Default for Application {
    fn default() -> (res: Self)
        ensures
            res.is_default(),
    {
        Application {
            debuggable: None,
            theme: None,
            has_code: false,
            icon: None,
            label: String::new(),
            extract_native_libs: None,
            uses_cleartext_traffic: None,
            meta_data: Vec::new(),
            activity: Activity::default(),
            receivers: Vec::new(),
            profileable: None,
        }
    }
}

impl AndroidManifest {
    pub open spec fn is_default(self) -> bool {
        &&& self.ns_android@ == android_namespace()
        &&& self.package@.len() == 0
        &&& self.shared_user_id is None
        &&& self.version_code is None
        &&& self.version_name is None
        &&& self.install_location is None
        &&& self.sdk.is_default()
        &&& self.uses_feature@.len() == 0
        &&& self.uses_permission@.len() == 0
        &&& self.queries is None
        &&& self.application.is_default()
    }
}

impl Default for AndroidManifest {
    fn default() -> (res: Self)
        ensures
            res.is_default(),
    {
        AndroidManifest {
            ns_android: default_namespace(),
            package: String::new(),
            shared_user_id: None,
            version_code: None,
            version_name: None,
            install_location: None,
            sdk: Sdk::default(),
            uses_feature: Vec::new(),
            uses_permission: Vec::new(),
            queries: None,
            application: Application::default(),
        }
    }
}

impl IntentFilter {
    pub open spec fn is_default(self) -> bool {
        self.actions@.len() == 0 && self.categories@.len() == 0 && self.data@.len() == 0
    }
}

impl Default for IntentFilter {
    fn default() -> (res: Self)
        ensures
            res.is_default(),
    {
        IntentFilter { actions: Vec::new(), categories: Vec::new(), data: Vec::new() }
    }
}

impl IntentFilterData {
    pub open spec fn is_default(self) -> bool {
        &&& self.scheme is None
        &&& self.host is None
        &&& self.port is None
        &&& self.path is None
        &&& self.path_pattern is None
        &&& self.path_prefix is None
        &&& self.mime_type is None
    }
}

impl Default for IntentFilterData {
    fn default() -> (res: Self)
        ensures
            res.is_default(),
    {
        IntentFilterData {
            scheme: None,
            host: None,
            port: None,
            path: None,
            path_pattern: None,
            path_prefix: None,
            mime_type: None,
        }
    }
}

impl Default for MetaData {
    fn default() -> (res: Self)
        ensures
            res.name@.len() == 0 && res.value@.len() == 0,
    {
        MetaData { name: String::new(), value: String::new() }
    }
}

impl Default for Feature {
    fn default() -> (res: Self)
        ensures
            res.name is None && res.required is None && res.version is None
                && res.opengles_version is None,
    {
        Feature { name: None, required: None, version: None, opengles_version: None }
    }
}

impl Default for Permission {
    fn default() -> (res: Self)
        ensures
            res.name@.len() == 0 && res.max_sdk_version is None,
    {
        Permission { name: String::new(), max_sdk_version: None }
    }
}

impl Default for Package {
    fn default() -> (res: Self)
        ensures
            res.name@.len() == 0,
    {
        Package { name: String::new() }
    }
}

impl Default for QueryProvider {
    fn default() -> (res: Self)
        ensures
            res.authorities@.len() == 0 && res.name@.len() == 0,
    {
        QueryProvider { authorities: String::new(), name: String::new() }
    }
}

impl Default for Queries {
    fn default() -> (res: Self)
        ensures
            res.package@.len() == 0 && res.intent@.len() == 0 && res.provider@.len() == 0,
    {
        Queries { package: Vec::new(), intent: Vec::new(), provider: Vec::new() }
    }
}

/// `n` in decimal, padded with zeros to four digits.
pub open spec fn pad4(n: u8) -> Seq<char> {
    seq!['0', digit_char((n / 100) as int), digit_char(((n / 10) % 10) as int), digit_char((n % 10) as int)]
}

/// The `glEsVersion` attribute text: `0x`, then the major and the minor
/// version, each in decimal padded with zeros to four digits.
pub open spec fn opengles_version_text(major: u8, minor: u8) -> Seq<char> {
    seq!['0', 'x'] + pad4(major) + pad4(minor)
}

fn push_pad4(s: &mut String, n: u8)
    ensures
        final(s)@ == old(s)@ + pad4(n),
{
    push_char(s, '0');
    push_char(s, ((n / 100) + 48) as char);
    push_char(s, (((n / 10) % 10) + 48) as char);
    push_char(s, ((n % 10) + 48) as char);
    proof {
        assert(final(s)@ =~= old(s)@ + pad4(n));
    }
}

/// The `glEsVersion` attribute text of an OpenGL ES version.
pub fn opengles_version_string(major: u8, minor: u8) -> (res: String)
    ensures
        res@ == opengles_version_text(major, minor),
{
    let mut s = String::new();
    push_char(&mut s, '0');
    push_char(&mut s, 'x');
    push_pad4(&mut s, major);
    push_pad4(&mut s, minor);
    proof {
        assert(s@ =~= opengles_version_text(major, minor));
    }
    s
}

proof fn lemma_pad4(n: u8)
    ensures
        pad4(n).len() == 4,
        forall|m: int| 0 <= m < 4 ==> is_digit(#[trigger] pad4(n)[m]),
        decimal_value(pad4(n)) == n,
{
    let p = pad4(n);
    lemma_digit_char((n / 100) as int);
    lemma_digit_char(((n / 10) % 10) as int);
    lemma_digit_char((n % 10) as int);
    lemma_digit_char(0);
    assert(digit_char(0) == '0');
    assert(p.drop_last().drop_last().drop_last().drop_last() =~= Seq::<char>::empty());
    assert(decimal_value(p.take(1)) == 0) by {
        assert(p.take(1).drop_last() =~= Seq::<char>::empty());
        assert(decimal_value(Seq::<char>::empty()) == 0);
        assert(p.take(1).last() == '0');
    }
    assert(p.drop_last().drop_last().drop_last() =~= p.take(1));
    assert(p.drop_last().drop_last() =~= p.take(2));
    assert(p.drop_last() =~= p.take(3));
    assert(decimal_value(p.take(2)) == (n / 100) as int) by {
        assert(p.take(2).drop_last() =~= p.take(1));
    }
    assert(decimal_value(p.take(3)) == (n / 100) as int * 10 + ((n / 10) % 10) as int) by {
        assert(p.take(3).drop_last() =~= p.take(2));
    }
    assert(n == (n / 100) * 100 + ((n / 10) % 10) * 10 + n % 10);
}

/// The `glEsVersion` text reads back as the version: `0x`, then four decimal
/// digits of the major version, then four of the minor one.
pub proof fn lemma_opengles_version_text(major: u8, minor: u8)
    ensures
        opengles_version_text(major, minor).len() == 10,
        opengles_version_text(major, minor).take(2) == seq!['0', 'x'],
        decimal_value(opengles_version_text(major, minor).subrange(2, 6)) == major,
        decimal_value(opengles_version_text(major, minor).subrange(6, 10)) == minor,
{
    let t = opengles_version_text(major, minor);
    lemma_pad4(major);
    lemma_pad4(minor);
    assert(t.take(2) =~= seq!['0', 'x']);
    assert(t.subrange(2, 6) =~= pad4(major));
    assert(t.subrange(6, 10) =~= pad4(minor));
}

} // verus!
