//! The bundle once built: signing it, turning it into APK sets, installing
//! and starting it, and reading its user id on a device.

use vstd::prelude::*;
use crate::apk::{ApkConfig, Key};
use crate::command::{commands_view, Chain, CommandLine, CommandView};
use crate::error::NdkError;
use crate::text::concat;
use crate::uid::{reports, uid_from_listing, uid_outcome};

verus! {

/// A bundle built from a configuration, not yet signed.
pub struct UnsignedAab<'a>(&'a ApkConfig);

impl<'a> UnsignedAab<'a> {
    pub closed spec fn config_view(self) -> ApkConfig {
        *self.0
    }

    pub fn config(&self) -> (res: &ApkConfig)
        ensures
            *res == self.config_view(),
    {
        self.0
    }

    pub(crate) fn new(config: &'a ApkConfig) -> (res: Self)
        ensures
            res.config_view() == *config,
    {
        UnsignedAab(config)
    }

    /// `jarsigner` signs the bundle with `key` and writes the signed copy to
    /// the configuration's `.apk` path.
    pub open spec fn sign_command(self, jarsigner: CommandView, key: Key) -> CommandView {
        jarsigner.push_args(
            seq![
                "-keystore"@,
                key.path@,
                "-storepass"@,
                key.password@,
                "-signedjar"@,
                self.config_view().artifact(".apk"@),
                self.config_view().artifact(".aab"@),
                key.alias@,
            ],
        )
    }

    /// Signs the bundle with `key`. Once the signing run succeeded, the chain
    /// hands on the [`SignedAab`] of the configuration: it names the `.aab`,
    /// which jarsigner read and left as it was, and the key with which
    /// bundletool signs the APK sets it builds from it; the signed copy is at
    /// the configuration's `.apk` path.
    pub fn sign(self, key: Key, jarsigner: &CommandLine) -> (res: Chain<SignedAab>)
        requires
            forwards_distinct(pairs_view(self.config_view().reverse_port_forward@)),
        ensures
            res.commands() == seq![self.sign_command(jarsigner@, key)],
            res.succeeded() == 0,
            res.product()@ == signed_view(self.config_view(), key),
    {
        let mut cmd = jarsigner.duplicate();
        let aab = self.0.aab();
        let apk = self.0.apk();
        cmd.arg("-keystore");
        cmd.arg(key.path.as_str());
        cmd.arg("-storepass");
        cmd.arg(key.password.as_str());
        cmd.arg("-signedjar");
        cmd.arg(apk.as_str());
        cmd.arg(aab.as_str());
        cmd.arg(key.alias.as_str());
        proof {
            assert(cmd@.args =~= self.sign_command(jarsigner@, key).args);
        }
        let signed = SignedAab::from_config(self.0, key);
        Chain::single(cmd, signed)
    }

    pub open spec fn build_apks_command(self, bundletool: CommandView, aapt2_bin: Seq<char>) -> CommandView {
        bundletool.push_args(
            seq![
                "build-apks"@,
                "--bundle="@ + self.config_view().artifact(".aab"@),
                "--output="@ + self.config_view().artifact(".apks"@),
                "--overwrite"@,
                "--aapt2="@ + aapt2_bin,
                "--enable-sparse-encoding"@,
            ],
        )
    }

    /// Builds the APK set of the unsigned bundle.
    pub fn build_apks(&self, bundletool: &CommandLine, aapt2_bin: &str) -> (res: Chain<()>)
        ensures
            res.commands() == seq![self.build_apks_command(bundletool@, aapt2_bin@)],
            res.succeeded() == 0,
    {
        let mut cmd = bundletool.duplicate();
        let bundle = concat("--bundle=", self.0.aab().as_str());
        let output = concat("--output=", self.0.apks_zip().as_str());
        let aapt2 = concat("--aapt2=", aapt2_bin);
        cmd.arg("build-apks");
        cmd.arg(bundle.as_str());
        cmd.arg(output.as_str());
        cmd.arg("--overwrite");
        cmd.arg(aapt2.as_str());
        cmd.arg("--enable-sparse-encoding");
        proof {
            assert(cmd@.args =~= self.build_apks_command(bundletool@, aapt2_bin@).args);
        }
        Chain::single(cmd, ())
    }
}

/// What a [`SignedAab`] is: the bundle's `.aab` path, its APK set paths, its
/// package, the port forwards and the signing key.
pub struct SignedAabView {
    pub path: Seq<char>,
    pub apks: Seq<char>,
    pub apks_connected: Seq<char>,
    pub package_name: Seq<char>,
    pub reverse_port_forward: Seq<(Seq<char>, Seq<char>)>,
    pub key: Key,
}

pub open spec fn pairs_view(v: Seq<(String, String)>) -> Seq<(Seq<char>, Seq<char>)> {
    v.map_values(|p: (String, String)| (p.0@, p.1@))
}

/// No device port is forwarded twice: the first components are distinct.
pub open spec fn forwards_distinct(s: Seq<(Seq<char>, Seq<char>)>) -> bool {
    forall|i: int, j: int| 0 <= i < j < s.len() ==> s[i].0 != s[j].0
}

/// The [`SignedAab`] of a configuration: it names the `.aab` path, not the
/// `.apk` path that signing writes.
pub open spec fn signed_view(config: ApkConfig, key: Key) -> SignedAabView {
    SignedAabView {
        path: config.artifact(".aab"@),
        apks: config.artifact(".apks"@),
        apks_connected: config.artifact("_connected.apks"@),
        package_name: config.manifest.package@,
        reverse_port_forward: pairs_view(config.reverse_port_forward@),
        key,
    }
}

/// What signing hands on: the bundle at the configuration's `.aab` path (the
/// bundle as built; jarsigner writes its signed copy to the `.apk` path), with
/// the key that bundletool signs the APK sets with when it builds them from
/// that bundle, ready to be turned into APKs and installed.
pub struct SignedAab {
    path: String,
    apks: String,
    apks_connected: String,
    package_name: String,
    reverse_port_forward: Vec<(String, String)>,
    key: Key,
}

impl View for SignedAab {
    type V = SignedAabView;

    closed spec fn view(&self) -> SignedAabView {
        SignedAabView {
            path: self.path@,
            apks: self.apks@,
            apks_connected: self.apks_connected@,
            package_name: self.package_name@,
            reverse_port_forward: pairs_view(self.reverse_port_forward@),
            key: self.key,
        }
    }
}

impl SignedAab {
    #[verifier::type_invariant]
    spec fn inv(self) -> bool {
        forwards_distinct(pairs_view(self.reverse_port_forward@))
    }

    /// The [`SignedAab`] of a configuration whose port forwards are distinct.
    pub fn from_config(config: &ApkConfig, key: Key) -> (res: Self)
        requires
            forwards_distinct(pairs_view(config.reverse_port_forward@)),
        ensures
            res@ == signed_view(*config, key),
    {
        let mut forwards: Vec<(String, String)> = Vec::new();
        for i in 0..config.reverse_port_forward.len()
            invariant
                forwards@ =~= config.reverse_port_forward@.take(i as int),
        {
            let from = config.reverse_port_forward[i].0.clone();
            let to = config.reverse_port_forward[i].1.clone();
            forwards.push((from, to));
            proof {
                assert(config.reverse_port_forward@.take(i + 1) =~= config.reverse_port_forward@.take(
                    i as int,
                ).push(config.reverse_port_forward@[i as int]));
            }
        }
        proof {
            assert(config.reverse_port_forward@.take(config.reverse_port_forward@.len() as int)
                =~= config.reverse_port_forward@);
        }
        let res = SignedAab {
            path: config.aab(),
            apks: config.apks_zip(),
            apks_connected: config.apks_connected_zip(),
            package_name: config.manifest.package.clone(),
            reverse_port_forward: forwards,
            key,
        };
        proof {
            assert(res@.reverse_port_forward =~= pairs_view(config.reverse_port_forward@));
        }
        res
    }

    pub open spec fn reverse_command(adb: CommandView, p: (Seq<char>, Seq<char>)) -> CommandView {
        adb.push_args(seq!["reverse"@, p.0, p.1])
    }

    /// How many port forwards are configured.
    pub fn forward_count(&self) -> (res: usize)
        ensures
            res == self@.reverse_port_forward.len(),
    {
        self.reverse_port_forward.len()
    }

    /// One `adb reverse <from> <to>` run for each configured port forward, in
    /// order; a failing forward ends the chain, and those made before it stay.
    /// No device port is forwarded twice.
    pub fn reverse_port_forwarding(&self, adb: &CommandLine) -> (res: Chain<()>)
        ensures
            res.commands() == self@.reverse_port_forward.map_values(
                |p: (Seq<char>, Seq<char>)| Self::reverse_command(adb@, p),
            ),
            res.succeeded() == 0,
            forwards_distinct(self@.reverse_port_forward),
    {
        proof {
            use_type_invariant(self);
        }
        let mut res: Vec<CommandLine> = Vec::new();
        for i in 0..self.reverse_port_forward.len()
            invariant
                commands_view(res@) =~= self@.reverse_port_forward.take(i as int).map_values(
                    |p: (Seq<char>, Seq<char>)| Self::reverse_command(adb@, p),
                ),
        {
            let mut cmd = adb.duplicate();
            cmd.arg("reverse");
            cmd.arg(self.reverse_port_forward[i].0.as_str());
            cmd.arg(self.reverse_port_forward[i].1.as_str());
            proof {
                let p = self@.reverse_port_forward[i as int];
                assert(cmd@.args =~= Self::reverse_command(adb@, p).args);
                assert(self@.reverse_port_forward.take(i + 1) =~= self@.reverse_port_forward.take(
                    i as int,
                ).push(p));
            }
            let ghost prev = res@;
            let ghost cv = cmd@;
            res.push(cmd);
            proof {
                let p = self@.reverse_port_forward[i as int];
                let f = |p: (Seq<char>, Seq<char>)| Self::reverse_command(adb@, p);
                assert(commands_view(res@) =~= commands_view(prev).push(cv));
                assert(self@.reverse_port_forward.take(i + 1).map_values(f) =~= self@.reverse_port_forward.take(
                    i as int,
                ).map_values(f).push(f(p)));
            }
        }
        proof {
            assert(self@.reverse_port_forward.take(self@.reverse_port_forward.len() as int)
                =~= self@.reverse_port_forward);
        }
        Chain::new(res, ())
    }

    pub open spec fn signing_args(self) -> Seq<Seq<char>> {
        seq![
            "--ks="@ + self@.key.path@,
            "--ks-key-alias="@ + self@.key.alias@,
            "--ks-pass=pass:"@ + self@.key.password@,
        ]
    }

    pub open spec fn build_apks_command(self, bundletool: CommandView, aapt2_bin: Seq<char>) -> CommandView {
        bundletool.push_args(
            seq![
                "build-apks"@,
                "--bundle="@ + self@.path,
                "--output="@ + self@.apks,
                "--overwrite"@,
            ],
        ).push_args(self.signing_args()).push_args(
            seq!["--aapt2="@ + aapt2_bin, "--enable-sparse-encoding"@],
        )
    }

    fn push_signing_args(&self, cmd: &mut CommandLine)
        ensures
            final(cmd)@ == old(cmd)@.push_args(self.signing_args()),
    {
        let ks = concat("--ks=", self.key.path.as_str());
        let alias = concat("--ks-key-alias=", self.key.alias.as_str());
        let pass = concat("--ks-pass=pass:", self.key.password.as_str());
        cmd.arg(ks.as_str());
        cmd.arg(alias.as_str());
        cmd.arg(pass.as_str());
        proof {
            assert(final(cmd)@.args =~= old(cmd)@.args + self.signing_args());
        }
    }

    /// Builds the APK set of the bundle, signed with the key.
    pub fn build_apks(&self, bundletool: &CommandLine, aapt2_bin: &str) -> (res: Chain<()>)
        ensures
            res.commands() == seq![self.build_apks_command(bundletool@, aapt2_bin@)],
            res.succeeded() == 0,
    {
        let mut cmd = bundletool.duplicate();
        let bundle = concat("--bundle=", self.path.as_str());
        let output = concat("--output=", self.apks.as_str());
        cmd.arg("build-apks");
        cmd.arg(bundle.as_str());
        cmd.arg(output.as_str());
        cmd.arg("--overwrite");
        let ghost c1 = cmd@;
        self.push_signing_args(&mut cmd);
        let ghost c2 = cmd@;
        let aapt2 = concat("--aapt2=", aapt2_bin);
        cmd.arg(aapt2.as_str());
        cmd.arg("--enable-sparse-encoding");
        proof {
            assert(c1.args =~= bundletool@.args + seq![
                "build-apks"@,
                "--bundle="@ + self@.path,
                "--output="@ + self@.apks,
                "--overwrite"@,
            ]);
            assert(cmd@.args =~= c2.args + seq!["--aapt2="@ + aapt2_bin@, "--enable-sparse-encoding"@]);
            assert(cmd@.args =~= self.build_apks_command(bundletool@, aapt2_bin@).args);
        }
        Chain::single(cmd, ())
    }

    pub open spec fn install_build_command(
        self,
        device_serial: Option<Seq<char>>,
        bundletool: CommandView,
        aapt2_bin: Seq<char>,
        adb_bin: Seq<char>,
    ) -> CommandView {
        bundletool.push_args(
            seq![
                "build-apks"@,
                "--bundle="@ + self@.path,
                "--output="@ + self@.apks_connected,
                "--overwrite"@,
            ],
        ).push_args(self.signing_args()).push_args(
            seq![
                "--aapt2="@ + aapt2_bin,
                "--adb="@ + adb_bin,
                "--enable-sparse-encoding"@,
                "--local-testing"@,
            ],
        ).push_arg(
            match device_serial {
                Some(s) => "--device-id="@ + s,
                None => "--connected-device"@,
            },
        )
    }

    pub open spec fn install_command(
        self,
        device_serial: Option<Seq<char>>,
        bundletool: CommandView,
        adb_bin: Seq<char>,
    ) -> CommandView {
        bundletool.push_args(
            seq![
                "install-apks"@,
                "--apks="@ + self@.apks_connected,
                "--adb="@ + adb_bin,
                "--allow-test-only"@,
                "--grant-runtime-permissions"@,
                ""@,
            ],
        ).push_args(
            match device_serial {
                Some(s) => seq!["--device-id="@ + s],
                None => Seq::empty(),
            },
        )
    }

    /// Installs the bundle on a device: builds the APK set for the given
    /// device (or the connected one), then installs it; the install run comes
    /// only after the build run succeeded.
    pub fn install(
        &self,
        device_serial: Option<&str>,
        bundletool: &CommandLine,
        aapt2_bin: &str,
        adb_bin: &str,
    ) -> (res: Chain<()>)
        ensures
            res.commands() == seq![
                self.install_build_command(opt_str_view(device_serial), bundletool@, aapt2_bin@, adb_bin@),
                self.install_command(opt_str_view(device_serial), bundletool@, adb_bin@),
            ],
            res.succeeded() == 0,
    {
        let mut build = bundletool.duplicate();
        let bundle = concat("--bundle=", self.path.as_str());
        let output = concat("--output=", self.apks_connected.as_str());
        build.arg("build-apks");
        build.arg(bundle.as_str());
        build.arg(output.as_str());
        build.arg("--overwrite");
        let ghost c1 = build@;
        self.push_signing_args(&mut build);
        let ghost c2 = build@;
        let aapt2 = concat("--aapt2=", aapt2_bin);
        let adb = concat("--adb=", adb_bin);
        build.arg(aapt2.as_str());
        build.arg(adb.as_str());
        build.arg("--enable-sparse-encoding");
        build.arg("--local-testing");
        let ghost c3 = build@;
        match device_serial {
            Some(s) => {
                let id = concat("--device-id=", s);
                build.arg(id.as_str());
            },
            None => {
                build.arg("--connected-device");
            },
        }
        proof {
            assert(c1.args =~= bundletool@.args + seq![
                "build-apks"@,
                "--bundle="@ + self@.path,
                "--output="@ + self@.apks_connected,
                "--overwrite"@,
            ]);
            assert(c3.args =~= c2.args + seq![
                "--aapt2="@ + aapt2_bin@,
                "--adb="@ + adb_bin@,
                "--enable-sparse-encoding"@,
                "--local-testing"@,
            ]);
            assert(build@.args =~= self.install_build_command(
                opt_str_view(device_serial),
                bundletool@,
                aapt2_bin@,
                adb_bin@,
            ).args);
        }
        let mut inst = bundletool.duplicate();
        let apks = concat("--apks=", self.apks_connected.as_str());
        inst.arg("install-apks");
        inst.arg(apks.as_str());
        inst.arg(adb.as_str());
        inst.arg("--allow-test-only");
        inst.arg("--grant-runtime-permissions");
        inst.arg("");
        let ghost i1 = inst@;
        if let Some(s) = device_serial {
            let id = concat("--device-id=", s);
            inst.arg(id.as_str());
        }
        proof {
            assert(i1.args =~= bundletool@.args + seq![
                "install-apks"@,
                "--apks="@ + self@.apks_connected,
                "--adb="@ + adb_bin@,
                "--allow-test-only"@,
                "--grant-runtime-permissions"@,
                ""@,
            ]);
            assert(inst@.args =~= self.install_command(
                opt_str_view(device_serial),
                bundletool@,
                adb_bin@,
            ).args);
        }
        let mut res: Vec<CommandLine> = Vec::new();
        res.push(build);
        res.push(inst);
        proof {
            assert(commands_view(res@) =~= seq![
                self.install_build_command(opt_str_view(device_serial), bundletool@, aapt2_bin@, adb_bin@),
                self.install_command(opt_str_view(device_serial), bundletool@, adb_bin@),
            ]);
        }
        Chain::new(res, ())
    }

    pub open spec fn start_command(self, adb: CommandView) -> CommandView {
        adb.push_args(
            seq![
                "shell"@,
                "am"@,
                "start"@,
                "-a"@,
                "android.intent.action.MAIN"@,
                "-n"@,
                self@.package_name + "/android.app.NativeActivity"@,
            ],
        )
    }

    /// Starts the package's native activity.
    pub fn start(&self, adb: &CommandLine) -> (res: Chain<()>)
        ensures
            res.commands() == seq![self.start_command(adb@)],
            res.succeeded() == 0,
    {
        let mut cmd = adb.duplicate();
        let component = concat(self.package_name.as_str(), "/android.app.NativeActivity");
        cmd.arg("shell");
        cmd.arg("am");
        cmd.arg("start");
        cmd.arg("-a");
        cmd.arg("android.intent.action.MAIN");
        cmd.arg("-n");
        cmd.arg(component.as_str());
        proof {
            assert(cmd@.args =~= self.start_command(adb@).args);
        }
        Chain::single(cmd, ())
    }

    pub open spec fn uidof_command_view(self, adb: CommandView) -> CommandView {
        adb.push_args(seq!["shell"@, "pm"@, "list"@, "package"@, "-U"@, self@.package_name])
    }

    /// Lists the packages with their user ids; its output goes to [`SignedAab::uidof`].
    pub fn uidof_command(&self, adb: &CommandLine) -> (res: CommandLine)
        ensures
            res@ == self.uidof_command_view(adb@),
    {
        let mut cmd = adb.duplicate();
        cmd.arg("shell");
        cmd.arg("pm");
        cmd.arg("list");
        cmd.arg("package");
        cmd.arg("-U");
        cmd.arg(self.package_name.as_str());
        proof {
            assert(cmd@.args =~= self.uidof_command_view(adb@).args);
        }
        cmd
    }

    /// The package's user id, from the run of [`SignedAab::uidof_command`]:
    /// `CmdFailed` with the command when it did not succeed, else what the
    /// listing says (see [`uid_from_listing`]).
    pub fn uidof(&self, cmd: CommandLine, succeeded: bool, stdout: &str) -> (res: Result<u32, NdkError>)
        ensures
            !succeeded ==> (res matches Err(NdkError::CmdFailed(c)) && c@ == cmd@),
            succeeded ==> reports(res, uid_outcome(stdout@, self@.package_name), stdout@, self@.package_name),
    {
        if !succeeded {
            return Err(NdkError::CmdFailed(cmd));
        }
        uid_from_listing(stdout, self.package_name.as_str())
    }
}

pub open spec fn opt_str_view(o: Option<&str>) -> Option<Seq<char>> {
    match o {
        Some(s) => Some(s@),
        None => None,
    }
}

/// The bundle that the align step builds is the one that signing reads; the
/// signed copy is written at the configuration's `.apk` path; and the
/// [`SignedAab`] that signing hands on names the bundle as built, at the
/// `.aab` path, from which its APK sets are built and signed with the key.
pub proof fn lemma_bundle_flows_to_signing<'a>(
    unsigned: UnsignedAab<'a>,
    key: Key,
    bundletool: CommandView,
    jarsigner: CommandView,
)
    ensures
        unsigned.config_view().build_bundle_command(bundletool).args[bundletool.args.len() + 2int]
            == "--output="@ + unsigned.config_view().artifact(".aab"@),
        unsigned.sign_command(jarsigner, key).args[jarsigner.args.len() + 5int]
            == unsigned.config_view().artifact(".apk"@),
        unsigned.sign_command(jarsigner, key).args[jarsigner.args.len() + 6int]
            == unsigned.config_view().artifact(".aab"@),
        signed_view(unsigned.config_view(), key).path == unsigned.config_view().artifact(".aab"@),
{
}

} // verus!
