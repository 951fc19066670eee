//! Planning an application bundle build: where each artifact goes, which tool
//! runs with which arguments, and what goes into the bundle module.

use vstd::prelude::*;
use crate::archive::{
    ds_store, dwarf_suffix, ends_with, extension_is, java_resource_files, java_resources_of,
    so_files, zip_entry_spec, EntryCompression,
};
use crate::bundle::{forwards_distinct, pairs_view, UnsignedAab};
use crate::command::{commands_view, strings_view, Chain, CommandLine, CommandView};
use crate::error::NdkError;
use crate::manifest::AndroidManifest;
use crate::path::{
    file_name, file_name_of, join_path, lemma_file_name_of, path_join, to_unix_separators, unix_separators,
    with_extension, with_extension_of,
};
use crate::text::{concat, decimal_string, decimal_text};

verus! {

/// The options for how to treat debug symbols that are present in any `.so`
/// files that are added to the APK.
///
/// Using `strip` or `split-debuginfo` in your cargo manifest(s) may cause debug
/// symbols to not be present in a `.so`, which would cause these options to do
/// nothing.
#[derive(Debug, Clone, Copy, PartialEq, Eq, Structural)]
pub enum StripConfig {
    /// Does not treat debug symbols specially
    Default,
    /// Removes debug symbols from the library before copying it into the APK
    Strip,
    /// Splits the library into into an ELF (`.so`) and DWARF (`.dwarf`). Only the
    /// `.so` is copied into the APK
    Split,
}

impl Default for StripConfig {
    fn default() -> (res: Self)
        ensures
            res == StripConfig::Default,
    {
        StripConfig::Default
    }
}

/// A signing key: the keystore, the key's alias in it and the store's password.
#[derive(Clone, Debug)]
pub struct Key {
    pub path: String,
    pub alias: String,
    pub password: String,
}

/// What a bundle build is made from.
pub struct ApkConfig {
    pub build_dir: String,
    pub apk_name: String,
    pub assets: Option<String>,
    pub resources: Option<String>,
    pub java_resources: Option<String>,
    pub manifest: AndroidManifest,
    pub disable_aapt_compression: bool,
    pub strip: StripConfig,
    /// Pairs of device and host ports, `adb reverse` style.
    pub reverse_port_forward: Vec<(String, String)>,
}

impl ApkConfig {
    /// The build directory's entry named after the APK with `suffix` appended.
    pub open spec fn artifact(self, suffix: Seq<char>) -> Seq<char> {
        path_join(self.build_dir@, self.apk_name@ + suffix)
    }

    fn artifact_path(&self, suffix: &str) -> (res: String)
        ensures
            res@ == self.artifact(suffix@),
    {
        let name = concat(self.apk_name.as_str(), suffix);
        join_path(self.build_dir.as_str(), name.as_str())
    }

    /// The archive that `aapt2 link` writes.
    pub fn linked_res(&self) -> (res: String)
        ensures
            res@ == self.artifact("_res.zip"@),
    {
        self.artifact_path("_res.zip")
    }

    /// The bundle module archive before alignment.
    pub fn unaligned_zip(&self) -> (res: String)
        ensures
            res@ == self.artifact("_unaligned.zip"@),
    {
        self.artifact_path("_unaligned.zip")
    }

    /// The bundle module archive after alignment.
    pub fn aligned_zip(&self) -> (res: String)
        ensures
            res@ == self.artifact("_aligned.zip"@),
    {
        self.artifact_path("_aligned.zip")
    }

    /// The configuration's `.apk` path.
    pub fn apk(&self) -> (res: String)
        ensures
            res@ == self.artifact(".apk"@),
    {
        self.artifact_path(".apk")
    }

    pub fn aab(&self) -> (res: String)
        ensures
            res@ == self.artifact(".aab"@),
    {
        self.artifact_path(".aab")
    }

    pub fn apks_zip(&self) -> (res: String)
        ensures
            res@ == self.artifact(".apks"@),
    {
        self.artifact_path(".apks")
    }

    pub fn apks_connected_zip(&self) -> (res: String)
        ensures
            res@ == self.artifact("_connected.apks"@),
    {
        self.artifact_path("_connected.apks")
    }

    /// Whether no device port is forwarded twice, as signing requires.
    pub fn forwards_are_distinct(&self) -> (res: bool)
        ensures
            res == forwards_distinct(pairs_view(self.reverse_port_forward@)),
    {
        let v = &self.reverse_port_forward;
        let ghost s = pairs_view(self.reverse_port_forward@);
        let n = v.len();
        let mut i: usize = 0;
        while i < n
            invariant
                n == v.len(),
                s == pairs_view(v@),
                s == pairs_view(self.reverse_port_forward@),
                s.len() == n,
                i <= n,
                forall|a: int, b: int| 0 <= a < i && a < b < n ==> s[a].0 != s[b].0,
            decreases n - i,
        {
            let mut j: usize = i + 1;
            while j < n
                invariant
                    n == v.len(),
                    s == pairs_view(v@),
                    s == pairs_view(self.reverse_port_forward@),
                    s.len() == n,
                    i < n,
                    i < j <= n,
                    forall|a: int, b: int| 0 <= a < i && a < b < n ==> s[a].0 != s[b].0,
                    forall|b: int| i < b < j ==> s[i as int].0 != s[b].0,
                decreases n - j,
            {
                if v[i].0 == v[j].0 {
                    proof {
                        assert(s[i as int].0 == s[j as int].0);
                        assert(!forwards_distinct(s));
                    }
                    return false;
                }
                j = j + 1;
            }
            i = i + 1;
        }
        proof {
            assert(forwards_distinct(s));
        }
        true
    }

    /// A build tool, run in the build directory.
    fn build_tool(&self, tool: &CommandLine) -> (res: CommandLine)
        ensures
            res@ == tool@.in_dir(self.build_dir@),
    {
        let mut cmd = tool.duplicate();
        cmd.set_current_dir(self.build_dir.as_str());
        cmd
    }

    pub open spec fn target_sdk(self, default_platform: u32) -> u32 {
        match self.manifest.sdk.target_sdk_version {
            Some(v) => v,
            None => default_platform,
        }
    }

    /// The SDK version the resources are linked against: the manifest's
    /// target SDK version, or the NDK's default target platform.
    pub fn target_sdk_version(&self, default_target_platform: u32) -> (res: u32)
        ensures
            res == self.target_sdk(default_target_platform),
    {
        match self.manifest.sdk.target_sdk_version {
            Some(v) => v,
            None => default_target_platform,
        }
    }

    /// The archive that `aapt2 compile` writes.
    pub open spec fn compiled_resources(self) -> Seq<char> {
        path_join(self.build_dir@, "compiled_resources.zip"@)
    }

    /// Whether resources are compiled: a resource directory is configured and exists.
    pub open spec fn compiles_resources(self, resources_exist: bool) -> bool {
        self.resources is Some && resources_exist
    }

    pub open spec fn compile_command(self, aapt2: CommandView) -> CommandView {
        aapt2.in_dir(self.build_dir@).push_args(
            seq!["compile"@, "--dir"@, self.resources->0@, "-o"@, self.compiled_resources()],
        )
    }

    pub open spec fn link_command(
        self,
        aapt2: CommandView,
        android_jar: Seq<char>,
        compiled: bool,
    ) -> CommandView {
        aapt2.in_dir(self.build_dir@).push_args(
            seq![
                "link"@,
                "--proto-format"@,
                "-o"@,
                self.artifact("_res.zip"@),
                "-I"@,
                android_jar,
                "--manifest"@,
                "AndroidManifest.xml"@,
            ],
        ).push_args(
            if self.disable_aapt_compression {
                seq!["-0"@, ""@]
            } else {
                Seq::empty()
            },
        ).push_args(
            match self.assets {
                Some(a) => seq!["-A"@, a@],
                None => Seq::empty(),
            },
        ).push_args(
            if compiled {
                seq![self.compiled_resources()]
            } else {
                Seq::empty()
            },
        )
    }

    /// Compiles the resources, when a resource directory is configured and
    /// exists (`resources_exist`), as the first step of linking them; the build
    /// directory is created and the manifest written into it beforehand. The
    /// chain hands on the [`ResourceLinker`] once the compile run succeeded.
    pub fn create_resources(&self, resources_exist: bool, aapt2: &CommandLine) -> (res: Chain<
        ResourceLinker<'_>,
    >)
        ensures
            res.commands() == if self.compiles_resources(resources_exist) {
                seq![self.compile_command(aapt2@)]
            } else {
                Seq::empty()
            },
            res.succeeded() == 0,
            res.product().config_view() == *self,
            res.product().compiled() == self.compiles_resources(resources_exist),
    {
        let mut commands: Vec<CommandLine> = Vec::new();
        let mut compiles = false;
        if let Some(res) = &self.resources {
            if resources_exist {
                compiles = true;
                let compiled = join_path(self.build_dir.as_str(), "compiled_resources.zip");
                let mut aapt = self.build_tool(aapt2);
                aapt.arg("compile");
                aapt.arg("--dir");
                aapt.arg(res.as_str());
                aapt.arg("-o");
                aapt.arg(compiled.as_str());
                proof {
                    assert(aapt@.args =~= self.compile_command(aapt2@).args);
                }
                commands.push(aapt);
            }
        }
        proof {
            if compiles {
                assert(commands_view(commands@) =~= seq![self.compile_command(aapt2@)]);
            } else {
                assert(commands_view(commands@) =~= Seq::<CommandView>::empty());
            }
        }
        Chain::new(commands, ResourceLinker { config: self, compiled: compiles })
    }
}

/// The step that links the resources, once any compile run has succeeded.
pub struct ResourceLinker<'a> {
    config: &'a ApkConfig,
    compiled: bool,
}

impl<'a> ResourceLinker<'a> {
    pub closed spec fn config_view(self) -> ApkConfig {
        *self.config
    }

    /// Whether the resources were compiled into the archive that linking takes.
    pub closed spec fn compiled(self) -> bool {
        self.compiled
    }

    pub fn config(&self) -> (res: &ApkConfig)
        ensures
            *res == self.config_view(),
    {
        self.config
    }

    /// Links the resources against `android_jar`, the platform jar of
    /// [`ApkConfig::target_sdk_version`]. The chain hands on the linked
    /// resources, with no library added yet, once the link run succeeded.
    pub fn link(self, aapt2: &CommandLine, android_jar: &str) -> (res: Chain<LinkedResources<'a>>)
        ensures
            res.commands() == seq![
                self.config_view().link_command(aapt2@, android_jar@, self.compiled()),
            ],
            res.succeeded() == 0,
            res.product().wf(),
            res.product().config_view() == self.config_view(),
            res.product().pending().len() == 0,
    {
        let config = self.config;
        let compiled = join_path(config.build_dir.as_str(), "compiled_resources.zip");
        let mut aapt = config.build_tool(aapt2);
        let linked = config.linked_res();
        aapt.arg("link");
        aapt.arg("--proto-format");
        aapt.arg("-o");
        aapt.arg(linked.as_str());
        aapt.arg("-I");
        aapt.arg(android_jar);
        aapt.arg("--manifest");
        aapt.arg("AndroidManifest.xml");
        let ghost after_link = aapt@;
        if config.disable_aapt_compression {
            aapt.arg("-0");
            aapt.arg("");
        }
        if let Some(assets) = &config.assets {
            aapt.arg("-A");
            aapt.arg(assets.as_str());
        }
        if self.compiled {
            aapt.arg(compiled.as_str());
        }
        proof {
            let l = config.link_command(aapt2@, android_jar@, self.compiled);
            let base = aapt2@.in_dir(config.build_dir@);
            assert(after_link.args =~= base.args + seq![
                "link"@,
                "--proto-format"@,
                "-o"@,
                config.artifact("_res.zip"@),
                "-I"@,
                android_jar@,
                "--manifest"@,
                "AndroidManifest.xml"@,
            ]);
            assert(aapt@.args =~= l.args);
        }
        let linked_resources = LinkedResources { config, pending_libs: Vec::new() };
        proof {
            assert(linked_resources.pending() =~= Seq::<Seq<char>>::empty());
        }
        Chain::single(aapt, linked_resources)
    }
}

/// Resources linked for a configuration, and the native libraries added so far.
pub struct LinkedResources<'a> {
    config: &'a ApkConfig,
    pending_libs: Vec<String>,
}

impl<'a> LinkedResources<'a> {
    pub closed spec fn config_view(self) -> ApkConfig {
        *self.config
    }

    /// The archive paths of the libraries added so far, in the order added.
    pub closed spec fn pending(self) -> Seq<Seq<char>> {
        strings_view(self.pending_libs@)
    }

    /// No library is recorded twice.
    pub open spec fn wf(self) -> bool {
        self.pending().no_duplicates()
    }

    /// Whether `s` is among the recorded libraries.
    fn is_pending(&self, s: &String) -> (res: bool)
        ensures
            res == self.pending().contains(s@),
    {
        let mut i: usize = 0;
        while i < self.pending_libs.len()
            invariant
                i <= self.pending_libs.len(),
                forall|m: int| 0 <= m < i ==> self.pending()[m] != s@,
            decreases self.pending_libs.len() - i,
        {
            if self.pending_libs[i] == *s {
                proof {
                    assert(self.pending()[i as int] == s@);
                }
                return true;
            }
            i = i + 1;
        }
        false
    }

    /// Starts adding a native library: `PathNotFound` when `path` does not
    /// exist (`path_exists`), else the job that puts it into the build
    /// directory's `lib/<abi>/`. Nothing is recorded until the job's chain has
    /// succeeded and its product is handed to [`LinkedResources::record_lib`].
    pub fn add_lib(&self, path: &str, path_exists: bool, abi: &str) -> (res: Result<LibJob, NdkError>)
        requires
            path_exists ==> file_name_of(path@) is Some,
        ensures
            !path_exists <==> res is Err,
            !path_exists ==> (res matches Err(NdkError::PathNotFound(p)) && p@ == path@),
            path_exists ==> (res matches Ok(job) && job.matches_spec(self.config_view(), path@, abi@)),
    {
        if !path_exists {
            return Err(NdkError::PathNotFound(path.to_owned()));
        }
        let name = match file_name(path) {
            Some(n) => n,
            None => {
                proof {
                    assert(false);
                }
                String::new()
            },
        };
        let lib_abi = join_path("lib", abi);
        let lib_path = join_path(lib_abi.as_str(), name.as_str());
        let out = join_path(self.config.build_dir.as_str(), lib_path.as_str());
        let dir = join_path(self.config.build_dir.as_str(), lib_abi.as_str());
        let entry = to_unix_separators(lib_path.as_str());
        Ok(LibJob { dir, out, source: path.to_owned(), entry, strip: self.config.strip })
    }

    /// Records a library whose job has succeeded, unless it is recorded already.
    pub fn record_lib(&mut self, lib: LibRecord)
        requires
            old(self).wf(),
        ensures
            final(self).wf(),
            final(self).config_view() == old(self).config_view(),
            final(self).pending() == (if old(self).pending().contains(lib@) {
                old(self).pending()
            } else {
                old(self).pending().push(lib@)
            }),
    {
        if !self.is_pending(&lib.entry) {
            let ghost e = lib.entry@;
            self.pending_libs.push(lib.entry);
            proof {
                assert(self.pending() =~= old(self).pending().push(e));
            }
        }
    }

    /// The runtime libraries to add from the entries of the `<abi>` directory
    /// of a runtime library directory: those whose extension is `so`, in order.
    pub fn add_runtime_libs(&self, entries: &Vec<String>) -> (res: Vec<String>)
        ensures
            strings_view(res@) == so_files(strings_view(entries@)),
    {
        let mut res: Vec<String> = Vec::new();
        let so: Vec<char> = vec!['s', 'o'];
        for i in 0..entries.len()
            invariant
                so@ == seq!['s', 'o'],
                strings_view(res@) == so_files(strings_view(entries@).take(i as int)),
        {
            proof {
                assert(strings_view(entries@).take(i + 1).drop_last() =~= strings_view(
                    entries@,
                ).take(i as int));
            }
            if extension_is(entries[i].as_str(), &so) {
                res.push(entries[i].clone());
                proof {
                    assert(strings_view(res@) =~= so_files(strings_view(entries@).take(i as int)).push(entries@[i as int]@));
                }
            }
        }
        proof {
            assert(strings_view(entries@).take(entries@.len() as int) =~= strings_view(entries@));
        }
        res
    }

    /// Starts putting the linked resources, the Java resources and the native
    /// libraries into a bundle module archive, to be aligned and built into a
    /// bundle. The caller extracts the linked resources into the workspace and
    /// creates its `res` and `dex` directories, then goes on with
    /// [`AlignDex::dex`].
    pub fn add_pending_libs_and_align(self) -> (res: AlignDex<'a>)
        ensures
            res.config_view() == self.config_view(),
            res.paths_view().matches_spec(self.config_view()),
    {
        let config = self.config;
        let bd = config.build_dir.as_str();
        let workspace = join_path(bd, "extracted_res_workspace");
        let res_dir = join_path(workspace.as_str(), "res");
        let dex_dir = join_path(workspace.as_str(), "dex");
        let lib_dir = join_path(workspace.as_str(), "lib");
        let manifest_dir = join_path(workspace.as_str(), "manifest");
        let build_lib_dir = join_path(bd, "lib");
        let old_manifest = join_path(workspace.as_str(), "AndroidManifest.xml");
        let new_manifest = join_path(manifest_dir.as_str(), "AndroidManifest.xml");
        let unaligned = config.unaligned_zip();
        let paths = AlignPaths {
            workspace,
            res_dir,
            dex_dir,
            lib_dir,
            manifest_dir,
            build_lib_dir,
            old_manifest,
            new_manifest,
            unaligned,
        };
        AlignDex { config, paths }
    }

    pub fn config(&self) -> (res: &ApkConfig)
        ensures
            *res == self.config_view(),
    {
        self.config
    }
}

/// The library's place in the archive: `lib/<abi>/<file name>`.
pub open spec fn lib_path(path: Seq<char>, abi: Seq<char>) -> Seq<char> {
    path_join(path_join("lib"@, abi), file_name_of(path)->0)
}

/// The recorded archive path, with `/` separators.
pub open spec fn lib_entry(path: Seq<char>, abi: Seq<char>) -> Seq<char> {
    unix_separators(lib_path(path, abi))
}

/// A recorded library is the archive entry of the file that its job put in
/// the build directory: once the build directory's `lib` tree is copied into
/// the workspace, the file at `lib_path` there is archived, stored, under the
/// recorded name. (A name ending in `.DS_Store` is left out of the archive,
/// and so, when debug symbols are split off, is one ending in `.dwarf`.)
pub proof fn lemma_recorded_lib_is_stored(path: Seq<char>, abi: Seq<char>, strip: StripConfig)
    requires
        file_name_of(path) is Some,
        abi.len() > 0,
        abi[0] != '/',
        !ends_with(lib_entry(path, abi), ds_store()),
        strip == StripConfig::Split ==> !ends_with(lib_entry(path, abi), dwarf_suffix()),
    ensures
        zip_entry_spec(lib_path(path, abi), false, true, strip) == Some(
            (lib_entry(path, abi), false, EntryCompression::Stored),
        ),
{
    reveal_strlit("lib");
    lemma_file_name_of(path);
    let name = file_name_of(path)->0;
    let dir = path_join("lib"@, abi);
    assert(dir =~= seq!['l', 'i', 'b', '/'] + abi);
    let p = lib_path(path, abi);
    assert(name[0] != '/');
    assert(dir.len() > 0);
    if dir.last() == '/' {
        assert(p == dir + name);
    } else {
        assert(p == dir.push('/') + name);
    }
    assert(p.len() > 0);
    assert(p.take(4) =~= seq!['l', 'i', 'b', '/']);
    let e = lib_entry(path, abi);
    assert(e.take(4) =~= seq!['l', 'i', 'b', '/']);
}

pub open spec fn objcopy_command(objcopy: Seq<char>, args: Seq<Seq<char>>) -> CommandView {
    CommandView { program: objcopy, current_dir: None, args }
}

/// The `objcopy` runs that treat the debug symbols: none for `Default`; for
/// `Strip` one that copies the library without them; for `Split` also one that
/// keeps only them in a `.dwarf` file beside the copy, and one that links the
/// copy to that file.
pub open spec fn strip_commands(
    strip: StripConfig,
    objcopy: Seq<char>,
    path: Seq<char>,
    out: Seq<char>,
) -> Seq<CommandView> {
    let dwarf = with_extension_of(out, "dwarf"@);
    match strip {
        StripConfig::Default => Seq::empty(),
        StripConfig::Strip => seq![objcopy_command(objcopy, seq!["--strip-debug"@, path, out])],
        StripConfig::Split => seq![
            objcopy_command(objcopy, seq!["--strip-debug"@, path, out]),
            objcopy_command(objcopy, seq!["--only-keep-debug"@, path, dwarf]),
            objcopy_command(objcopy, seq!["--add-gnu-debuglink="@ + dwarf, out]),
        ],
    }
}

/// A native library on its way into the build directory. The caller creates
/// `dir`; then, when [`LibJob::copies`], copies the library to `out` and takes
/// [`LibJob::copied`], else looks up `objcopy` for the target and takes
/// [`LibJob::strip`]; and runs the chain.
pub struct LibJob {
    dir: String,
    out: String,
    source: String,
    entry: String,
    strip: StripConfig,
}

impl LibJob {
    pub closed spec fn dir_view(self) -> Seq<char> {
        self.dir@
    }

    pub closed spec fn out_view(self) -> Seq<char> {
        self.out@
    }

    pub closed spec fn source_view(self) -> Seq<char> {
        self.source@
    }

    pub closed spec fn entry_view(self) -> Seq<char> {
        self.entry@
    }

    pub closed spec fn strip_view(self) -> StripConfig {
        self.strip
    }

    pub open spec fn matches_spec(self, config: ApkConfig, path: Seq<char>, abi: Seq<char>) -> bool {
        &&& self.dir_view() == path_join(config.build_dir@, path_join("lib"@, abi))
        &&& self.out_view() == path_join(config.build_dir@, lib_path(path, abi))
        &&& self.source_view() == path
        &&& self.entry_view() == lib_entry(path, abi)
        &&& self.strip_view() == config.strip
    }

    /// The directory to create for the library.
    pub fn dir(&self) -> (res: &String)
        ensures
            res@ == self.dir_view(),
    {
        &self.dir
    }

    /// Where the library goes.
    pub fn out(&self) -> (res: &String)
        ensures
            res@ == self.out_view(),
    {
        &self.out
    }

    /// Whether the library is copied as it is.
    pub fn copies(&self) -> (res: bool)
        ensures
            res == (self.strip_view() == StripConfig::Default),
    {
        self.strip == StripConfig::Default
    }

    /// After the library was copied to `out`: nothing left to run.
    pub fn copied(self) -> (res: Chain<LibRecord>)
        requires
            self.strip_view() == StripConfig::Default,
        ensures
            res.commands() == Seq::<CommandView>::empty(),
            res.succeeded() == 0,
            res.product()@ == self.entry_view(),
    {
        let cmds: Vec<CommandLine> = Vec::new();
        proof {
            assert(commands_view(cmds@) =~= Seq::<CommandView>::empty());
        }
        Chain::new(cmds, LibRecord { entry: self.entry })
    }

    /// The `objcopy` runs that put the library to `out` without its debug
    /// symbols (and, for `Split`, keep them beside it in a `.dwarf` file).
    pub fn strip(self, objcopy: &str) -> (res: Chain<LibRecord>)
        requires
            self.strip_view() != StripConfig::Default,
        ensures
            res.commands() == strip_commands(
                self.strip_view(),
                objcopy@,
                self.source_view(),
                self.out_view(),
            ),
            res.succeeded() == 0,
            res.product()@ == self.entry_view(),
    {
        let path = self.source.as_str();
        let out = self.out.as_str();
        let mut commands: Vec<CommandLine> = Vec::new();
        let mut cmd = CommandLine::new(objcopy);
        cmd.arg("--strip-debug");
        cmd.arg(path);
        cmd.arg(out);
        proof {
            assert(cmd@.args =~= seq!["--strip-debug"@, path@, out@]);
        }
        commands.push(cmd);
        if self.strip == StripConfig::Split {
            proof {
                reveal_strlit("dwarf");
            }
            let dwarf_path = with_extension(out, "dwarf");
            let mut cmd = CommandLine::new(objcopy);
            cmd.arg("--only-keep-debug");
            cmd.arg(path);
            cmd.arg(dwarf_path.as_str());
            proof {
                assert(cmd@.args =~= seq!["--only-keep-debug"@, path@, dwarf_path@]);
            }
            commands.push(cmd);
            let link = concat("--add-gnu-debuglink=", dwarf_path.as_str());
            let mut cmd = CommandLine::new(objcopy);
            cmd.arg(link.as_str());
            cmd.arg(out);
            proof {
                assert(cmd@.args =~= seq![link@, out@]);
            }
            commands.push(cmd);
        }
        proof {
            assert(commands_view(commands@) =~= strip_commands(
                self.strip,
                objcopy@,
                self.source@,
                self.out@,
            ));
        }
        Chain::new(commands, LibRecord { entry: self.entry })
    }
}

/// A library whose job has succeeded, to be recorded.
pub struct LibRecord {
    entry: String,
}

impl View for LibRecord {
    type V = Seq<char>;

    closed spec fn view(&self) -> Seq<char> {
        self.entry@
    }
}

impl ApkConfig {
    /// The minimum API level handed to `d8`: the manifest's minimum SDK
    /// version, else its target SDK version, else the NDK's default.
    pub open spec fn min_api(self, default_platform: u32) -> u32 {
        match self.manifest.sdk.min_sdk_version {
            Some(v) => v,
            None => self.target_sdk(default_platform),
        }
    }

    pub open spec fn workspace(self) -> Seq<char> {
        path_join(self.build_dir@, "extracted_res_workspace"@)
    }

    pub open spec fn d8_command(
        self,
        d8: CommandView,
        java_files: Seq<Seq<char>>,
        default_platform: u32,
    ) -> CommandView {
        d8.in_dir(self.build_dir@).push_args(
            seq![
                "--output"@,
                path_join(self.workspace(), "dex"@),
                "--android-platform-build"@,
                "--min-api"@,
                decimal_text(self.min_api(default_platform) as nat),
            ],
        ).push_args(
            if self.manifest.application.debuggable == Some(true) {
                seq!["--debug"@]
            } else {
                seq!["--release"@]
            },
        ).push_args(java_resources_of(java_files))
    }

    pub open spec fn zipalign_command(self, zipalign: CommandView) -> CommandView {
        zipalign.in_dir(self.build_dir@).push_args(
            seq![
                "-f"@,
                "-v"@,
                "-P"@,
                "16"@,
                "4"@,
                self.artifact("_unaligned.zip"@),
                self.artifact("_aligned.zip"@),
            ],
        )
    }

    pub open spec fn build_bundle_command(self, bundletool: CommandView) -> CommandView {
        bundletool.push_args(
            seq![
                "build-bundle"@,
                "--modules="@ + self.artifact("_aligned.zip"@),
                "--output="@ + self.artifact(".aab"@),
                "--overwrite"@,
            ],
        )
    }
}

/// The places that the align step uses.
pub struct AlignPaths {
    pub workspace: String,
    pub res_dir: String,
    pub dex_dir: String,
    pub lib_dir: String,
    pub manifest_dir: String,
    pub build_lib_dir: String,
    pub old_manifest: String,
    pub new_manifest: String,
    pub unaligned: String,
}

impl AlignPaths {
    pub open spec fn matches_spec(self, config: ApkConfig) -> bool {
        let ws = config.workspace();
        &&& self.workspace@ == ws
        &&& self.res_dir@ == path_join(ws, "res"@)
        &&& self.dex_dir@ == path_join(ws, "dex"@)
        &&& self.lib_dir@ == path_join(ws, "lib"@)
        &&& self.manifest_dir@ == path_join(ws, "manifest"@)
        &&& self.build_lib_dir@ == path_join(config.build_dir@, "lib"@)
        &&& self.old_manifest@ == path_join(ws, "AndroidManifest.xml"@)
        &&& self.new_manifest@ == path_join(path_join(ws, "manifest"@), "AndroidManifest.xml"@)
        &&& self.unaligned@ == config.artifact("_unaligned.zip"@)
    }
}

/// The align step before the Java resources are dexed.
pub struct AlignDex<'a> {
    config: &'a ApkConfig,
    paths: AlignPaths,
}

/// The align step before the native libraries and the manifest are laid out.
pub struct AlignLibs<'a> {
    config: &'a ApkConfig,
    paths: AlignPaths,
}

/// The align step before the bundle module archive is written.
pub struct AlignZip<'a> {
    config: &'a ApkConfig,
    paths: AlignPaths,
}

/// The align step before the bundle is built.
pub struct AlignBundle<'a> {
    config: &'a ApkConfig,
    paths: AlignPaths,
}

impl<'a> AlignDex<'a> {
    pub closed spec fn config_view(self) -> ApkConfig {
        *self.config
    }

    pub closed spec fn paths_view(self) -> AlignPaths {
        self.paths
    }

    pub fn config(&self) -> (res: &ApkConfig)
        ensures
            *res == self.config_view(),
    {
        self.config
    }

    pub fn paths(&self) -> (res: &AlignPaths)
        ensures
            *res == self.paths_view(),
    {
        &self.paths
    }

    /// Dexes the Java resources, when a Java resource directory is configured:
    /// `java_files` are the files found under it, in the order found, and the
    /// ones whose extension is a Java resource's go to `d8` (looked up only
    /// then). The chain hands on the next step once `d8` has succeeded.
    pub fn dex(self, java_files: &Vec<String>, d8: Option<&CommandLine>, default_target_platform: u32) -> (res:
        Chain<AlignLibs<'a>>)
        requires
            self.paths_view().matches_spec(self.config_view()),
            self.config_view().java_resources is Some ==> d8 is Some,
        ensures
            res.commands() == match self.config_view().java_resources {
                Some(_) => seq![
                    self.config_view().d8_command(
                        d8->0@,
                        strings_view(java_files@),
                        default_target_platform,
                    ),
                ],
                None => Seq::<CommandView>::empty(),
            },
            res.succeeded() == 0,
            res.product().config_view() == self.config_view(),
            res.product().paths_view() == self.paths_view(),
    {
        let config = self.config;
        let mut commands: Vec<CommandLine> = Vec::new();
        if config.java_resources.is_some() {
            let d8 = match d8 {
                Some(d) => d,
                None => {
                    proof {
                        assert(false);
                    }
                    return Chain::new(commands, AlignLibs { config, paths: self.paths });
                },
            };
            let mut cmd = config.build_tool(d8);
            let min_api = match config.manifest.sdk.min_sdk_version {
                Some(v) => v,
                None => match config.manifest.sdk.target_sdk_version {
                    Some(t) => t,
                    None => default_target_platform,
                },
            };
            let min_api_text = decimal_string(min_api);
            cmd.arg("--output");
            cmd.arg(self.paths.dex_dir.as_str());
            cmd.arg("--android-platform-build");
            cmd.arg("--min-api");
            cmd.arg(min_api_text.as_str());
            let ghost c1 = cmd@;
            let debuggable = match config.manifest.application.debuggable {
                Some(b) => b,
                None => false,
            };
            if debuggable {
                cmd.arg("--debug");
            } else {
                cmd.arg("--release");
            }
            let ghost c2 = cmd@;
            let files = java_resource_files(java_files);
            for i in 0..files.len()
                invariant
                    cmd@.program == c2.program,
                    cmd@.current_dir == c2.current_dir,
                    cmd@.args == c2.args + strings_view(files@).take(i as int),
            {
                cmd.arg(files[i].as_str());
                proof {
                    assert(strings_view(files@).take(i + 1) =~= strings_view(files@).take(
                        i as int,
                    ).push(files@[i as int]@));
                    assert(cmd@.args =~= c2.args + strings_view(files@).take(i + 1));
                }
            }
            proof {
                assert(strings_view(files@).take(files@.len() as int) =~= strings_view(files@));
                assert(c1.args =~= d8@.args + seq![
                    "--output"@,
                    self.paths.dex_dir@,
                    "--android-platform-build"@,
                    "--min-api"@,
                    decimal_text(min_api as nat),
                ]);
                assert(cmd@.args =~= config.d8_command(
                    d8@,
                    strings_view(java_files@),
                    default_target_platform,
                ).args);
            }
            commands.push(cmd);
            proof {
                assert(commands_view(commands@) =~= seq![
                    config.d8_command(d8@, strings_view(java_files@), default_target_platform),
                ]);
            }
        } else {
            proof {
                assert(commands_view(commands@) =~= Seq::<CommandView>::empty());
            }
        }
        Chain::new(commands, AlignLibs { config, paths: self.paths })
    }
}

impl<'a> AlignLibs<'a> {
    pub closed spec fn config_view(self) -> ApkConfig {
        *self.config
    }

    pub closed spec fn paths_view(self) -> AlignPaths {
        self.paths
    }

    pub fn paths(&self) -> (res: &AlignPaths)
        ensures
            *res == self.paths_view(),
    {
        &self.paths
    }

    /// After the workspace's `lib` directory was replaced with a copy of the
    /// build directory's: the extracted manifest must exist (`exists`) to be
    /// moved into the `manifest` directory, else the step ends with
    /// `PathNotFound` and nothing is archived, aligned or bundled.
    pub fn manifest_found(self, exists: bool) -> (res: Result<AlignZip<'a>, NdkError>)
        ensures
            exists <==> res is Ok,
            exists ==> (res matches Ok(z) && z.config_view() == self.config_view()
                && z.paths_view() == self.paths_view()),
            !exists ==> (res matches Err(NdkError::PathNotFound(p)) && p@
                == self.paths_view().old_manifest@),
    {
        if exists {
            Ok(AlignZip { config: self.config, paths: self.paths })
        } else {
            Err(NdkError::PathNotFound(self.paths.old_manifest))
        }
    }
}

impl<'a> AlignZip<'a> {
    pub closed spec fn config_view(self) -> ApkConfig {
        *self.config
    }

    pub closed spec fn paths_view(self) -> AlignPaths {
        self.paths
    }

    pub fn config(&self) -> (res: &ApkConfig)
        ensures
            *res == self.config_view(),
    {
        self.config
    }

    pub fn paths(&self) -> (res: &AlignPaths)
        ensures
            *res == self.paths_view(),
    {
        &self.paths
    }

    /// After the manifest was moved and the workspace written into the
    /// unaligned archive, entry by entry as [`zip_entry`] says: aligns it.
    pub fn zipped(self, zipalign: &CommandLine) -> (res: Chain<AlignBundle<'a>>)
        ensures
            res.commands() == seq![self.config_view().zipalign_command(zipalign@)],
            res.succeeded() == 0,
            res.product().config_view() == self.config_view(),
    {
        let config = self.config;
        let unaligned = config.unaligned_zip();
        let aligned = config.aligned_zip();
        let mut za = config.build_tool(zipalign);
        za.arg("-f");
        za.arg("-v");
        za.arg("-P");
        za.arg("16");
        za.arg("4");
        za.arg(unaligned.as_str());
        za.arg(aligned.as_str());
        proof {
            assert(za@.args =~= config.zipalign_command(zipalign@).args);
        }
        Chain::single(za, AlignBundle { config, paths: self.paths })
    }
}

impl<'a> AlignBundle<'a> {
    pub closed spec fn config_view(self) -> ApkConfig {
        *self.config
    }

    /// After alignment: builds the bundle, and hands on the unsigned bundle
    /// once that has succeeded.
    pub fn bundle(self, bundletool: &CommandLine) -> (res: Chain<UnsignedAab<'a>>)
        ensures
            res.commands() == seq![self.config_view().build_bundle_command(bundletool@)],
            res.succeeded() == 0,
            res.product().config_view() == self.config_view(),
    {
        let config = self.config;
        let aligned = config.aligned_zip();
        let aab = config.aab();
        let mut bb = bundletool.duplicate();
        let modules = concat("--modules=", aligned.as_str());
        let output = concat("--output=", aab.as_str());
        bb.arg("build-bundle");
        bb.arg(modules.as_str());
        bb.arg(output.as_str());
        bb.arg("--overwrite");
        proof {
            assert(bb@.args =~= config.build_bundle_command(bundletool@).args);
        }
        Chain::single(bb, UnsignedAab::new(config))
    }
}


proof fn lemma_join_child_injective(b: Seq<char>, c1: Seq<char>, c2: Seq<char>)
    requires
        c1 != c2,
        c1.len() > 0 && c2.len() > 0,
        (c1[0] == '/') == (c2[0] == '/'),
    ensures
        path_join(b, c1) != path_join(b, c2),
{
    if c1[0] != '/' {
        let p = if b.len() == 0 || b.last() == '/' { b } else { b.push('/') };
        assert(path_join(b, c1) == p + c1);
        assert(path_join(b, c2) == p + c2);
        if p + c1 == p + c2 {
            assert(c1 =~= (p + c1).skip(p.len() as int));
            assert(c2 =~= (p + c2).skip(p.len() as int));
        }
    }
}

proof fn lemma_artifact_injective(config: ApkConfig, s1: Seq<char>, s2: Seq<char>)
    requires
        s1 != s2,
        s1.len() > 0 && s2.len() > 0,
        s1[0] != '/' && s2[0] != '/',
    ensures
        config.artifact(s1) != config.artifact(s2),
{
    let n = config.apk_name@;
    let c1 = n + s1;
    let c2 = n + s2;
    if c1 == c2 {
        assert(s1 =~= c1.skip(n.len() as int));
        assert(s2 =~= c2.skip(n.len() as int));
    }
    if n.len() > 0 {
        assert(c1[0] == n[0] && c2[0] == n[0]);
    } else {
        assert(c1[0] == s1[0] && c2[0] == s2[0]);
    }
    lemma_join_child_injective(config.build_dir@, c1, c2);
}

/// The artifacts of a configuration, in the order linked resources, unaligned
/// and aligned module, APK, bundle, APK set, APK set for a connected device.
pub open spec fn artifacts(config: ApkConfig) -> Seq<Seq<char>> {
    seq![
        config.artifact("_res.zip"@),
        config.artifact("_unaligned.zip"@),
        config.artifact("_aligned.zip"@),
        config.artifact(".apk"@),
        config.artifact(".aab"@),
        config.artifact(".apks"@),
        config.artifact("_connected.apks"@),
    ]
}

/// No two build artifacts of a configuration share a path, whatever its build
/// directory and APK name: no step overwrites another step's output.
pub proof fn lemma_artifacts_distinct(config: ApkConfig)
    ensures
        forall|i: int, j: int| 0 <= i < j < 7 ==> artifacts(config)[i] != artifacts(config)[j],
{
    reveal_strlit("_res.zip");
    reveal_strlit("_unaligned.zip");
    reveal_strlit("_aligned.zip");
    reveal_strlit(".apk");
    reveal_strlit(".aab");
    reveal_strlit(".apks");
    reveal_strlit("_connected.apks");
    let sfx = seq![
        "_res.zip"@,
        "_unaligned.zip"@,
        "_aligned.zip"@,
        ".apk"@,
        ".aab"@,
        ".apks"@,
        "_connected.apks"@,
    ];
    assert(".apk"@[2] != ".aab"@[2]);
    assert forall|i: int, j: int| 0 <= i < j < 7 implies artifacts(config)[i] != artifacts(config)[j] by {
        assert(sfx[i].len() != sfx[j].len() || sfx[i][2] != sfx[j][2]);
        lemma_artifact_injective(config, sfx[i], sfx[j]);
        assert(artifacts(config)[i] == config.artifact(sfx[i]));
        assert(artifacts(config)[j] == config.artifact(sfx[j]));
    }
}


/// `d8` is handed the minimum API level as the manifest's minimum SDK
/// version, else its target SDK version, else the NDK's default platform; it
/// builds for debugging exactly when the manifest says the application is
/// debuggable, and for release when it says it is not or says nothing.
pub proof fn lemma_d8_api_and_mode(
    config: ApkConfig,
    d8: CommandView,
    java_files: Seq<Seq<char>>,
    default_platform: u32,
)
    ensures
        ({
            let a = config.d8_command(d8, java_files, default_platform).args;
            let b = d8.args.len() as int;
            &&& a.take(b) == d8.args
            &&& a[b] == "--output"@
            &&& a[b + 1] == path_join(path_join(config.build_dir@, "extracted_res_workspace"@), "dex"@)
            &&& a[b + 3] == "--min-api"@
            &&& config.manifest.sdk.min_sdk_version matches Some(m) ==> a[b + 4] == decimal_text(m as nat)
            &&& config.manifest.sdk.min_sdk_version is None ==> (
            config.manifest.sdk.target_sdk_version matches Some(t) ==> a[b + 4] == decimal_text(
                t as nat,
            ))
            &&& (config.manifest.sdk.min_sdk_version is None && config.manifest.sdk.target_sdk_version is None)
                ==> a[b + 4] == decimal_text(default_platform as nat)
            &&& config.manifest.application.debuggable == Some(true) ==> a[b + 5] == "--debug"@
            &&& config.manifest.application.debuggable == Some(false) ==> a[b + 5] == "--release"@
            &&& config.manifest.application.debuggable is None ==> a[b + 5] == "--release"@
        }),
{
    let a = config.d8_command(d8, java_files, default_platform).args;
    let b = d8.args.len() as int;
    assert(a.take(b) =~= d8.args);
}

/// Linking takes the compiled resources exactly when they were compiled: then
/// the archive `<build_dir>/compiled_resources.zip` is the last argument,
/// whatever the assets and compression settings; the other arguments come
/// before it.
pub proof fn lemma_link_takes_compiled(
    config: ApkConfig,
    aapt2: CommandView,
    android_jar: Seq<char>,
    compiled: bool,
)
    ensures
        ({
            let a = config.link_command(aapt2, android_jar, compiled).args;
            let b = aapt2.args.len() as int;
            &&& a.len() == b + 8 + (if config.disable_aapt_compression { 2int } else { 0int }) + (
            if config.assets is Some {
                2int
            } else {
                0int
            }) + (if compiled { 1int } else { 0int })
            &&& a[b] == "link"@
            &&& a[b + 5] == android_jar
            &&& compiled ==> a.last() == path_join(config.build_dir@, "compiled_resources.zip"@)
            &&& !compiled ==> (config.assets matches Some(d) ==> a.last() == d@)
        }),
{
}

} // verus!
