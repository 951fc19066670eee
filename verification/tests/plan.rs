use ndk_build::apk::{ApkConfig, Key, LinkedResources, StripConfig};
use ndk_build::archive::{is_java_resource, zip_entry, EntryCompression};
use ndk_build::bundle::{SignedAab, UnsignedAab};
use ndk_build::command::{check_status, Chain, CommandLine};
use ndk_build::error::NdkError;
use ndk_build::manifest::AndroidManifest;

fn config(strip: StripConfig) -> ApkConfig {
    let mut manifest = AndroidManifest::default();
    manifest.package = "com.example.app".to_string();
    ApkConfig {
        build_dir: "target/apk".to_string(),
        apk_name: "app".to_string(),
        assets: None,
        resources: None,
        java_resources: None,
        manifest,
        disable_aapt_compression: false,
        strip,
        reverse_port_forward: vec![("tcp:5000".to_string(), "tcp:6000".to_string())],
    }
}

fn key() -> Key {
    Key {
        path: "debug.keystore".to_string(),
        alias: "androiddebugkey".to_string(),
        password: "android".to_string(),
    }
}

fn args(c: &CommandLine) -> Vec<&str> {
    c.args.iter().map(|s| s.as_str()).collect()
}

/// Runs a chain with the given outcomes, one per command run: the commands
/// that ran, and what the chain ended with.
fn drive<S>(mut chain: Chain<S>, outcomes: &[bool]) -> (Vec<CommandLine>, Result<S, NdkError>) {
    let mut ran = Vec::new();
    while let Some(cmd) = chain.current() {
        let ok = outcomes[ran.len()];
        ran.push(cmd);
        chain = match chain.advance(ok) {
            Ok(next) => next,
            Err(e) => return (ran, Err(e)),
        };
    }
    (ran, Ok(chain.finish()))
}

fn linked_for(c: &ApkConfig) -> LinkedResources<'_> {
    let (_, linker) = drive(c.create_resources(false, &CommandLine::new("aapt2")), &[]);
    let (_, linked) = drive(linker.ok().unwrap().link(&CommandLine::new("aapt2"), "j"), &[true]);
    linked.ok().unwrap()
}

fn unsigned(c: &ApkConfig) -> UnsignedAab<'_> {
    let align = linked_for(c).add_pending_libs_and_align();
    let (_, libs) = drive(align.dex(&vec![], Some(&CommandLine::new("d8")), 33), &[true]);
    let zip = libs.ok().unwrap().manifest_found(true).ok().unwrap();
    let (_, bundle) = drive(zip.zipped(&CommandLine::new("zipalign")), &[true]);
    let (_, unsigned) = drive(bundle.ok().unwrap().bundle(&CommandLine::new("bundletool")), &[true]);
    unsigned.ok().unwrap()
}

#[test]
fn artifact_paths() {
    let c = config(StripConfig::Default);
    assert_eq!(c.apk(), "target/apk/app.apk");
    assert_eq!(c.aab(), "target/apk/app.aab");
    assert_eq!(c.apks_zip(), "target/apk/app.apks");
    assert_eq!(c.apks_connected_zip(), "target/apk/app_connected.apks");
    assert_eq!(c.linked_res(), "target/apk/app_res.zip");
    assert_eq!(c.unaligned_zip(), "target/apk/app_unaligned.zip");
    assert_eq!(c.aligned_zip(), "target/apk/app_aligned.zip");
}

#[test]
fn artifact_paths_are_distinct() {
    for (dir, name) in [("target/apk", "app"), ("", ""), ("/", "x"), ("d", "/abs")] {
        let mut c = config(StripConfig::Default);
        c.build_dir = dir.to_string();
        c.apk_name = name.to_string();
        let all = [
            c.linked_res(),
            c.unaligned_zip(),
            c.aligned_zip(),
            c.apk(),
            c.aab(),
            c.apks_zip(),
            c.apks_connected_zip(),
        ];
        for i in 0..all.len() {
            for j in i + 1..all.len() {
                assert_ne!(all[i], all[j]);
            }
        }
    }
}

#[test]
fn target_sdk_version_defaults_to_platform() {
    let mut c = config(StripConfig::Default);
    assert_eq!(c.target_sdk_version(33), 33);
    c.manifest.sdk.target_sdk_version = Some(30);
    assert_eq!(c.target_sdk_version(33), 30);
}

#[test]
fn create_resources_links_only_without_resources() {
    let c = config(StripConfig::Default);
    let aapt2 = CommandLine::new("/sdk/aapt2");
    let (ran, linker) = drive(c.create_resources(false, &aapt2), &[]);
    assert!(ran.is_empty());
    let linker = linker.ok().unwrap();
    assert_eq!(linker.config().apk_name, "app");
    let (ran, linked) = drive(linker.link(&aapt2, "/sdk/android.jar"), &[true]);
    assert_eq!(ran.len(), 1);
    assert_eq!(ran[0].program, "/sdk/aapt2");
    assert_eq!(ran[0].current_dir.as_deref(), Some("target/apk"));
    assert_eq!(
        args(&ran[0]),
        vec![
            "link",
            "--proto-format",
            "-o",
            "target/apk/app_res.zip",
            "-I",
            "/sdk/android.jar",
            "--manifest",
            "AndroidManifest.xml"
        ]
    );
    assert_eq!(linked.ok().unwrap().config().apk_name, "app");
}

#[test]
fn create_resources_compiles_existing_resources() {
    let mut c = config(StripConfig::Default);
    c.resources = Some("res".to_string());
    c.assets = Some("assets".to_string());
    c.disable_aapt_compression = true;
    let aapt2 = CommandLine::new("aapt2");
    let (ran, linker) = drive(c.create_resources(true, &aapt2), &[true]);
    assert_eq!(ran.len(), 1);
    assert_eq!(
        args(&ran[0]),
        vec!["compile", "--dir", "res", "-o", "target/apk/compiled_resources.zip"]
    );
    let (ran, _) = drive(linker.ok().unwrap().link(&aapt2, "android.jar"), &[true]);
    assert_eq!(
        args(&ran[0]),
        vec![
            "link",
            "--proto-format",
            "-o",
            "target/apk/app_res.zip",
            "-I",
            "android.jar",
            "--manifest",
            "AndroidManifest.xml",
            "-0",
            "",
            "-A",
            "assets",
            "target/apk/compiled_resources.zip"
        ]
    );
    // A configured resource directory that does not exist is not compiled.
    let (ran, linker) = drive(c.create_resources(false, &aapt2), &[]);
    assert!(ran.is_empty());
    let (ran, _) = drive(linker.ok().unwrap().link(&aapt2, "android.jar"), &[true]);
    assert_eq!(args(&ran[0]).last(), Some(&"assets"));
}

#[test]
fn failed_compile_stops_before_link() {
    let mut c = config(StripConfig::Default);
    c.resources = Some("res".to_string());
    let (ran, linker) = drive(c.create_resources(true, &CommandLine::new("aapt2")), &[false]);
    assert_eq!(ran.len(), 1);
    match linker {
        Err(NdkError::CmdFailed(cmd)) => assert_eq!(args(&cmd)[0], "compile"),
        _ => panic!("compile failure not reported"),
    }
}

#[test]
fn failed_link_hands_on_nothing() {
    let c = config(StripConfig::Default);
    let (_, linker) = drive(c.create_resources(false, &CommandLine::new("aapt2")), &[]);
    let (_, linked) = drive(linker.ok().unwrap().link(&CommandLine::new("aapt2"), "j"), &[false]);
    match linked {
        Err(NdkError::CmdFailed(cmd)) => assert_eq!(args(&cmd)[0], "link"),
        _ => panic!("link failure not reported"),
    }
}

#[test]
fn add_lib_missing_path() {
    let c = config(StripConfig::Default);
    let linked = linked_for(&c);
    match linked.add_lib("missing/libx.so", false, "arm64-v8a") {
        Err(NdkError::PathNotFound(p)) => assert_eq!(p, "missing/libx.so"),
        r => panic!("unexpected {:?}", r.is_ok()),
    }
    // A missing path without a file name is reported the same way.
    match linked.add_lib("", false, "arm64-v8a") {
        Err(NdkError::PathNotFound(p)) => assert_eq!(p, ""),
        r => panic!("unexpected {:?}", r.is_ok()),
    }
}

#[test]
fn add_lib_default_copies() {
    let c = config(StripConfig::Default);
    let mut linked = linked_for(&c);
    let job = linked.add_lib("out/libmain.so", true, "arm64-v8a").ok().unwrap();
    assert_eq!(job.dir(), "target/apk/lib/arm64-v8a");
    assert_eq!(job.out(), "target/apk/lib/arm64-v8a/libmain.so");
    assert!(job.copies());
    let (ran, rec) = drive(job.copied(), &[]);
    assert!(ran.is_empty());
    linked.record_lib(rec.ok().unwrap());
    // Adding the same library again plans the same copy and records it once.
    let again = linked.add_lib("out/libmain.so", true, "arm64-v8a").ok().unwrap();
    assert_eq!(again.out(), "target/apk/lib/arm64-v8a/libmain.so");
    let (_, rec) = drive(again.copied(), &[]);
    linked.record_lib(rec.ok().unwrap());
}

#[test]
fn add_lib_strip_and_split() {
    let c = config(StripConfig::Strip);
    let linked = linked_for(&c);
    let job = linked.add_lib("out/libmain.so", true, "x86_64").ok().unwrap();
    assert!(!job.copies());
    let (ran, rec) = drive(job.strip("/ndk/llvm-objcopy"), &[true]);
    assert!(rec.is_ok());
    assert_eq!(ran.len(), 1);
    assert_eq!(ran[0].program, "/ndk/llvm-objcopy");
    assert_eq!(
        args(&ran[0]),
        vec!["--strip-debug", "out/libmain.so", "target/apk/lib/x86_64/libmain.so"]
    );

    let c = config(StripConfig::Split);
    let linked = linked_for(&c);
    let job = linked.add_lib("out/libmain.so", true, "x86_64").ok().unwrap();
    let (ran, rec) = drive(job.strip("objcopy"), &[true, true, true]);
    assert!(rec.is_ok());
    assert_eq!(ran.len(), 3);
    assert_eq!(
        args(&ran[1]),
        vec!["--only-keep-debug", "out/libmain.so", "target/apk/lib/x86_64/libmain.dwarf"]
    );
    assert_eq!(
        args(&ran[2]),
        vec![
            "--add-gnu-debuglink=target/apk/lib/x86_64/libmain.dwarf",
            "target/apk/lib/x86_64/libmain.so"
        ]
    );
}

#[test]
fn failed_strip_records_nothing() {
    let c = config(StripConfig::Split);
    let linked = linked_for(&c);
    let job = linked.add_lib("out/libmain.so", true, "x86_64").ok().unwrap();
    let (ran, rec) = drive(job.strip("objcopy"), &[true, false, true]);
    // The run after the failing one does not happen, and no record is handed on.
    assert_eq!(ran.len(), 2);
    match rec {
        Err(NdkError::CmdFailed(cmd)) => assert_eq!(args(&cmd)[0], "--only-keep-debug"),
        _ => panic!("strip failure not reported"),
    }
}

#[test]
fn runtime_libs_are_shared_objects() {
    let c = config(StripConfig::Default);
    let linked = linked_for(&c);
    let entries = vec![
        "rt/arm64-v8a/libc++_shared.so".to_string(),
        "rt/arm64-v8a/readme.txt".to_string(),
        "rt/arm64-v8a/libfoo.SO".to_string(),
        "rt/arm64-v8a/libbar.so".to_string(),
    ];
    assert_eq!(
        linked.add_runtime_libs(&entries),
        vec!["rt/arm64-v8a/libc++_shared.so".to_string(), "rt/arm64-v8a/libbar.so".to_string()]
    );
}

#[test]
fn align_without_java_resources() {
    let c = config(StripConfig::Default);
    let align = linked_for(&c).add_pending_libs_and_align();
    let plan = align.paths();
    assert_eq!(plan.workspace, "target/apk/extracted_res_workspace");
    assert_eq!(plan.res_dir, "target/apk/extracted_res_workspace/res");
    assert_eq!(plan.dex_dir, "target/apk/extracted_res_workspace/dex");
    assert_eq!(plan.lib_dir, "target/apk/extracted_res_workspace/lib");
    assert_eq!(plan.manifest_dir, "target/apk/extracted_res_workspace/manifest");
    assert_eq!(plan.build_lib_dir, "target/apk/lib");
    assert_eq!(plan.old_manifest, "target/apk/extracted_res_workspace/AndroidManifest.xml");
    assert_eq!(
        plan.new_manifest,
        "target/apk/extracted_res_workspace/manifest/AndroidManifest.xml"
    );
    assert_eq!(plan.unaligned, "target/apk/app_unaligned.zip");
    let (ran, libs) = drive(align.dex(&vec![], None, 33), &[]);
    assert!(ran.is_empty());
    let zip = libs.ok().unwrap().manifest_found(true).ok().unwrap();
    let (ran, bundle) = drive(zip.zipped(&CommandLine::new("zipalign")), &[true]);
    assert_eq!(ran[0].current_dir.as_deref(), Some("target/apk"));
    assert_eq!(
        args(&ran[0]),
        vec![
            "-f",
            "-v",
            "-P",
            "16",
            "4",
            "target/apk/app_unaligned.zip",
            "target/apk/app_aligned.zip"
        ]
    );
    let (ran, unsigned) = drive(bundle.ok().unwrap().bundle(&CommandLine::new("bundletool")), &[true]);
    assert_eq!(ran[0].current_dir, None);
    assert_eq!(
        args(&ran[0]),
        vec![
            "build-bundle",
            "--modules=target/apk/app_aligned.zip",
            "--output=target/apk/app.aab",
            "--overwrite"
        ]
    );
    assert!(unsigned.is_ok());
}

#[test]
fn align_with_java_resources() {
    let mut c = config(StripConfig::Default);
    c.java_resources = Some("java".to_string());
    c.manifest.application.debuggable = Some(true);
    let files = vec![
        "java/a.dex".to_string(),
        "java/readme.md".to_string(),
        "java/B.CLASS".to_string(),
        "java/lib.jar".to_string(),
        "java/noext".to_string(),
    ];
    let align = linked_for(&c).add_pending_libs_and_align();
    let (ran, _) = drive(align.dex(&files, Some(&CommandLine::new("d8")), 33), &[true]);
    let d8 = &ran[0];
    assert_eq!(d8.current_dir.as_deref(), Some("target/apk"));
    assert_eq!(
        args(d8),
        vec![
            "--output",
            "target/apk/extracted_res_workspace/dex",
            "--android-platform-build",
            "--min-api",
            "29",
            "--debug",
            "java/a.dex",
            "java/B.CLASS",
            "java/lib.jar"
        ]
    );
}

#[test]
fn d8_min_api_falls_back() {
    let mut c = config(StripConfig::Default);
    c.java_resources = Some("java".to_string());
    c.manifest.sdk.min_sdk_version = None;
    let align = linked_for(&c).add_pending_libs_and_align();
    let (ran, _) = drive(align.dex(&vec![], Some(&CommandLine::new("d8")), 34), &[true]);
    assert_eq!(args(&ran[0])[4], "34");
    assert_eq!(args(&ran[0])[5], "--release");
}

#[test]
fn failed_dex_stops_the_align_step() {
    let mut c = config(StripConfig::Default);
    c.java_resources = Some("java".to_string());
    let align = linked_for(&c).add_pending_libs_and_align();
    let (ran, libs) = drive(align.dex(&vec![], Some(&CommandLine::new("d8")), 34), &[false]);
    assert_eq!(ran.len(), 1);
    match libs {
        Err(NdkError::CmdFailed(cmd)) => assert_eq!(cmd.program, "d8"),
        _ => panic!("d8 failure not reported"),
    }
}

#[test]
fn missing_extracted_manifest() {
    let c = config(StripConfig::Default);
    let align = linked_for(&c).add_pending_libs_and_align();
    let (_, libs) = drive(align.dex(&vec![], None, 33), &[]);
    match libs.ok().unwrap().manifest_found(false) {
        Err(NdkError::PathNotFound(p)) => {
            assert_eq!(p, "target/apk/extracted_res_workspace/AndroidManifest.xml")
        }
        _ => panic!("missing manifest not reported"),
    }
}

#[test]
fn failed_zipalign_builds_no_bundle() {
    let c = config(StripConfig::Default);
    let align = linked_for(&c).add_pending_libs_and_align();
    let (_, libs) = drive(align.dex(&vec![], None, 33), &[]);
    let zip = libs.ok().unwrap().manifest_found(true).ok().unwrap();
    let (_, bundle) = drive(zip.zipped(&CommandLine::new("zipalign")), &[false]);
    match bundle {
        Err(NdkError::CmdFailed(cmd)) => assert_eq!(cmd.program, "zipalign"),
        _ => panic!("zipalign failure not reported"),
    }
}

#[test]
fn java_resource_kinds() {
    for p in ["a.dex", "a.class", "a.zip", "a.jar", "a.apk", "A.DEX", "x/y.Jar"] {
        assert!(is_java_resource(p), "{}", p);
    }
    for p in ["a.so", "dex", ".dex", "a.dex/..", "a.txt"] {
        assert!(!is_java_resource(p), "{}", p);
    }
}

#[test]
fn zip_entries() {
    assert!(zip_entry("", true, false, StripConfig::Split).is_none());
    let d = zip_entry("res", true, false, StripConfig::Split).unwrap();
    assert_eq!(d.name, "res/");
    assert!(d.is_dir);
    assert_eq!(d.compression, EntryCompression::Deflated);
    let f = zip_entry("lib\\arm64-v8a\\libmain.so", false, true, StripConfig::Split).unwrap();
    assert_eq!(f.name, "lib/arm64-v8a/libmain.so");
    assert_eq!(f.compression, EntryCompression::Stored);
    let f = zip_entry("manifest/AndroidManifest.xml", false, true, StripConfig::Split).unwrap();
    assert_eq!(f.compression, EntryCompression::Deflated);
    assert!(zip_entry("res/.DS_Store", false, true, StripConfig::Split).is_none());
    assert!(zip_entry("link", false, false, StripConfig::Split).is_none());
    let f = zip_entry("library.txt", false, true, StripConfig::Split).unwrap();
    assert_eq!(f.compression, EntryCompression::Deflated);
    // Split-off debug symbols stay out of the module; elsewhere a `.dwarf` is kept.
    assert!(zip_entry("lib/x86_64/libmain.dwarf", false, true, StripConfig::Split).is_none());
    assert!(zip_entry("lib\\x86_64\\libmain.dwarf", false, true, StripConfig::Split).is_none());
    let f = zip_entry("assets/notes.dwarf", false, true, StripConfig::Split).unwrap();
    assert_eq!(f.compression, EntryCompression::Deflated);
    let f = zip_entry("lib/x86_64/libmain.so", false, true, StripConfig::Split).unwrap();
    assert_eq!(f.compression, EntryCompression::Stored);
}

#[test]
fn dwarf_files_kept_unless_split() {
    for strip in [StripConfig::Default, StripConfig::Strip] {
        let f = zip_entry("lib/x86_64/libmain.dwarf", false, true, strip).unwrap();
        assert_eq!(f.name, "lib/x86_64/libmain.dwarf");
        assert!(!f.is_dir);
        assert_eq!(f.compression, EntryCompression::Stored);
        let f = zip_entry("lib\\x86_64\\libmain.dwarf", false, true, strip).unwrap();
        assert_eq!(f.name, "lib/x86_64/libmain.dwarf");
        assert!(zip_entry("lib/.DS_Store", false, true, strip).is_none());
    }
    assert!(zip_entry("lib/x86_64/libmain.dwarf", false, true, StripConfig::Split).is_none());
}

#[test]
fn sign_and_build_apks() {
    let c = config(StripConfig::Default);
    let unsigned = unsigned(&c);
    let (ran, done) = drive(unsigned.build_apks(&CommandLine::new("bundletool"), "/sdk/aapt2"), &[true]);
    assert!(done.is_ok());
    assert_eq!(
        args(&ran[0]),
        vec![
            "build-apks",
            "--bundle=target/apk/app.aab",
            "--output=target/apk/app.apks",
            "--overwrite",
            "--aapt2=/sdk/aapt2",
            "--enable-sparse-encoding"
        ]
    );
    let (ran, signed) = drive(unsigned.sign(key(), &CommandLine::new("jarsigner")), &[true]);
    assert_eq!(ran[0].program, "jarsigner");
    // The signed package is written at the configuration's `.apk` path.
    assert_eq!(
        args(&ran[0]),
        vec![
            "-keystore",
            "debug.keystore",
            "-storepass",
            "android",
            "-signedjar",
            "target/apk/app.apk",
            "target/apk/app.aab",
            "androiddebugkey"
        ]
    );
    let signed = signed.ok().unwrap();
    let (ran, _) = drive(signed.build_apks(&CommandLine::new("bundletool"), "aapt2"), &[true]);
    assert_eq!(
        args(&ran[0]),
        vec![
            "build-apks",
            "--bundle=target/apk/app.aab",
            "--output=target/apk/app.apks",
            "--overwrite",
            "--ks=debug.keystore",
            "--ks-key-alias=androiddebugkey",
            "--ks-pass=pass:android",
            "--aapt2=aapt2",
            "--enable-sparse-encoding"
        ]
    );
}

#[test]
fn failed_signing_hands_on_no_signed_bundle() {
    let c = config(StripConfig::Default);
    let unsigned = unsigned(&c);
    let (_, signed) = drive(unsigned.sign(key(), &CommandLine::new("jarsigner")), &[false]);
    match signed {
        Err(NdkError::CmdFailed(cmd)) => assert_eq!(cmd.program, "jarsigner"),
        _ => panic!("signing failure not reported"),
    }
}

#[test]
fn install_with_and_without_device() {
    let c = config(StripConfig::Default);
    let signed = SignedAab::from_config(&c, key());
    let bt = CommandLine::new("bundletool");
    let (ran, done) = drive(signed.install(Some("emulator-5554"), &bt, "aapt2", "adb"), &[true, true]);
    assert!(done.is_ok());
    assert_eq!(ran.len(), 2);
    assert_eq!(
        args(&ran[0]),
        vec![
            "build-apks",
            "--bundle=target/apk/app.aab",
            "--output=target/apk/app_connected.apks",
            "--overwrite",
            "--ks=debug.keystore",
            "--ks-key-alias=androiddebugkey",
            "--ks-pass=pass:android",
            "--aapt2=aapt2",
            "--adb=adb",
            "--enable-sparse-encoding",
            "--local-testing",
            "--device-id=emulator-5554"
        ]
    );
    assert_eq!(
        args(&ran[1]),
        vec![
            "install-apks",
            "--apks=target/apk/app_connected.apks",
            "--adb=adb",
            "--allow-test-only",
            "--grant-runtime-permissions",
            "",
            "--device-id=emulator-5554"
        ]
    );
    let (ran, _) = drive(signed.install(None, &bt, "aapt2", "adb"), &[true, true]);
    assert_eq!(args(&ran[0]).last(), Some(&"--connected-device"));
    assert_eq!(args(&ran[1]).last(), Some(&""));
}

#[test]
fn install_stops_after_failed_build() {
    let c = config(StripConfig::Default);
    let signed = SignedAab::from_config(&c, key());
    let bt = CommandLine::new("bundletool");
    let (ran, done) = drive(signed.install(None, &bt, "aapt2", "adb"), &[false, true]);
    assert_eq!(ran.len(), 1);
    match done {
        Err(NdkError::CmdFailed(cmd)) => assert_eq!(args(&cmd)[0], "build-apks"),
        _ => panic!("build failure not reported"),
    }
}

#[test]
fn start_uidof_and_port_forwards() {
    let mut c = config(StripConfig::Default);
    c.reverse_port_forward.push(("tcp:5001".to_string(), "tcp:6001".to_string()));
    assert!(c.forwards_are_distinct());
    let signed = SignedAab::from_config(&c, key());
    assert_eq!(signed.forward_count(), 2);
    let mut adb = CommandLine::new("adb");
    adb.arg("-s");
    adb.arg("dev");
    let (ran, _) = drive(signed.start(&adb), &[true]);
    assert_eq!(
        args(&ran[0]),
        vec![
            "-s",
            "dev",
            "shell",
            "am",
            "start",
            "-a",
            "android.intent.action.MAIN",
            "-n",
            "com.example.app/android.app.NativeActivity"
        ]
    );
    let cmd = signed.uidof_command(&adb);
    assert_eq!(
        args(&cmd),
        vec!["-s", "dev", "shell", "pm", "list", "package", "-U", "com.example.app"]
    );
    assert!(matches!(
        signed.uidof(cmd, true, "package:com.example.app uid:10111\n"),
        Ok(10111)
    ));
    let cmd = signed.uidof_command(&adb);
    match signed.uidof(cmd, false, "") {
        Err(NdkError::CmdFailed(c)) => assert_eq!(c.args.last().unwrap(), "com.example.app"),
        r => panic!("unexpected {:?}", r),
    }
    let (ran, done) = drive(signed.reverse_port_forwarding(&CommandLine::new("adb")), &[true, true]);
    assert!(done.is_ok());
    assert_eq!(ran.len(), 2);
    assert_eq!(args(&ran[0]), vec!["reverse", "tcp:5000", "tcp:6000"]);
    assert_eq!(args(&ran[1]), vec!["reverse", "tcp:5001", "tcp:6001"]);
    // A failing forward ends the chain.
    let (ran, done) = drive(signed.reverse_port_forwarding(&CommandLine::new("adb")), &[false, true]);
    assert_eq!(ran.len(), 1);
    assert!(matches!(done, Err(NdkError::CmdFailed(_))));
}

#[test]
fn repeated_device_port_is_detected() {
    let mut c = config(StripConfig::Default);
    assert!(c.forwards_are_distinct());
    c.reverse_port_forward.push(("tcp:5000".to_string(), "tcp:7000".to_string()));
    assert!(!c.forwards_are_distinct());
    c.reverse_port_forward.clear();
    assert!(c.forwards_are_distinct());
}

#[test]
fn check_status_reports_failure() {
    assert!(check_status(CommandLine::new("true"), true).is_ok());
    match check_status(CommandLine::new("false"), false) {
        Err(NdkError::CmdFailed(c)) => assert_eq!(c.program, "false"),
        r => panic!("unexpected {:?}", r),
    }
}

#[test]
fn strip_config_default() {
    assert_eq!(StripConfig::default(), StripConfig::Default);
}
