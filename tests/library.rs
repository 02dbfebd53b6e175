use librimca::cleanup::{cleanup_action, CleanupAction, EntryKind};
use librimca::error::{DownloadError, LaunchArguments, LaunchError};
use librimca::instance::{DownloadHelper, Instance, Vanilla};
use librimca::models::{
    find_version, os_from_name, Account, Artifact, AssetIndex, AssetObject, Assets, ClientDownload,
    Library, LibraryDownloads, Meta, Natives, Os, Paths, Rule, Version,
};
use librimca::plan::{
    artifact_destination, asset_destination, client_jar, is_legacy_index, DownloadTask, FileStatus, LocalFiles,
    RETRIES,
};
use librimca::state::{Component, State};
use librimca::text::{replace_all, str_eq, substitute_all, substitute_each};

const HASH: &str = "bdf48ef6b5d0d23bbb02e17d04865216179f510a";

fn s(x: &str) -> String {
    x.to_string()
}

fn artifact(path: &str, url: &str) -> Artifact {
    Artifact { path: s(path), url: s(url), sha1: s("00") }
}

fn plain_library(name: &str, path: &str, rules: Option<Vec<Rule>>) -> Library {
    Library {
        name: s(name),
        downloads: LibraryDownloads {
            artifact: Some(artifact(path, &format!("https://libraries.example/{}", path))),
            classifiers: None,
        },
        natives: None,
        rules,
    }
}

fn native_library() -> Library {
    Library {
        name: s("org.lwjgl:lwjgl:3.2.2"),
        downloads: LibraryDownloads {
            artifact: Some(artifact("org/lwjgl/lwjgl.jar", "https://libraries.example/lwjgl.jar")),
            classifiers: Some(vec![(
                s("natives-windows"),
                artifact("org/lwjgl/lwjgl-natives-windows.jar", "https://libraries.example/lwjgl-natives-windows.jar"),
            )]),
        },
        natives: Some(Natives { windows: Some(s("natives-windows")), linux: None, macos: None }),
        rules: None,
    }
}

fn meta(libraries: Vec<Library>, asset_id: &str) -> Meta {
    Meta {
        id: s("1.16.4"),
        main_class: s("net.minecraft.client.main.Main"),
        release_type: s("release"),
        libraries,
        asset_index: AssetIndex { id: s(asset_id), url: s("https://meta.example/index.json") },
        client: ClientDownload { url: s("https://launcher.example/client.jar"), sha1: s("11") },
        game_arguments: Some(vec![
            s("--username"),
            s("${auth_player_name}"),
            s("--version"),
            s("${version_name}"),
            s("--assetIndex"),
            s("${assets_index_name}"),
            s("--uuid"),
            s("${auth_uuid}"),
            s("--userType"),
            s("${user_type}"),
            s("--versionType"),
            s("${version_type}"),
            s("--gameDir"),
            s("${game_directory}"),
            s("--assetsDir"),
            s("${assets_root}"),
            s("${unknown_key}"),
        ]),
        jvm_arguments: None,
    }
}

fn paths() -> Paths {
    Paths {
        instance: s("/g/instances/test"),
        libraries: s("/g/libraries"),
        natives: s("/g/instances/test/natives"),
        assets: s("/g/assets"),
        resources: s("/g/instances/test/resources"),
    }
}

fn instance(m: Meta) -> Instance {
    Instance {
        inner: Vanilla { version: Version { id: s("1.16.4"), url: s("https://meta.example/1.16.4.json") }, meta: m },
        state: State::new(),
        paths: paths(),
    }
}

fn one_asset() -> Assets {
    Assets { objects: vec![(s("icons/icon_16x16.png"), AssetObject { hash: s(HASH), size: 3665 })] }
}

fn missing(libs: usize, assets: usize) -> LocalFiles {
    LocalFiles { client: FileStatus::Missing, libraries: vec![FileStatus::Missing; libs], assets_present: vec![false; assets] }
}

fn task(t: &DownloadTask) -> (&str, &str, bool) {
    (t.url.as_str(), t.path.as_str(), t.unzip)
}

const CLIENT_JAR: &str = "/g/libraries/com/mojang/minecraft/1.16.4/minecraft-1.16.4-client.jar";
const ASSET_URL: &str =
    "https://resources.download.minecraft.net/bd/bdf48ef6b5d0d23bbb02e17d04865216179f510a";

#[test]
fn test_download() {
    let inst = instance(meta(vec![native_library()], "legacy"));
    let plan = inst.collect_urls(Os::Windows, &one_asset(), &missing(1, 1)).unwrap();
    assert_eq!(plan.retries, 5);
    assert_eq!(plan.retries, RETRIES);
    assert_eq!(plan.tasks.len(), 4);
    assert_eq!(task(&plan.tasks[0]), ("https://launcher.example/client.jar", CLIENT_JAR, false));
    assert_eq!(
        task(&plan.tasks[1]),
        ("https://libraries.example/lwjgl.jar", "/g/libraries/org/lwjgl/lwjgl.jar", false)
    );
    assert_eq!(
        task(&plan.tasks[2]),
        ("https://libraries.example/lwjgl-natives-windows.jar", "/g/instances/test/natives", true)
    );
    assert_eq!(task(&plan.tasks[3]), (ASSET_URL, "/g/instances/test/resources/icons/icon_16x16.png", false));
}

#[test]
fn scenario_on_linux_and_macos_has_no_native_task() {
    for os in [Os::Linux, Os::MacOs] {
        let inst = instance(meta(vec![native_library()], "legacy"));
        let plan = inst.collect_urls(os, &one_asset(), &missing(1, 1)).unwrap();
        assert_eq!(plan.tasks.len(), 3);
        assert!(plan.tasks.iter().all(|t| !t.unzip));
    }
}

#[test]
fn installed_instance_plans_only_native_archives() {
    let inst = instance(meta(vec![native_library(), plain_library("a", "a/a.jar", None)], "1.16"));
    let local = LocalFiles {
        client: FileStatus::Valid,
        libraries: vec![FileStatus::Valid, FileStatus::Valid],
        assets_present: vec![true],
    };
    let plan = inst.collect_urls(Os::Windows, &one_asset(), &local).unwrap();
    assert_eq!(plan.tasks.len(), 1);
    assert!(plan.tasks[0].unzip);
    let plan = inst.collect_urls(Os::Linux, &one_asset(), &local).unwrap();
    assert!(plan.tasks.is_empty());
}

#[test]
fn corrupt_files_are_fetched_again() {
    let inst = instance(meta(vec![plain_library("a", "a/a.jar", None)], "1.16"));
    let local = LocalFiles { client: FileStatus::Corrupt, libraries: vec![FileStatus::Corrupt], assets_present: vec![true] };
    let plan = inst.collect_urls(Os::Linux, &one_asset(), &local).unwrap();
    assert_eq!(plan.tasks.len(), 2);
    assert_eq!(plan.tasks[0].path, CLIENT_JAR);
    assert_eq!(plan.tasks[1].path, "/g/libraries/a/a.jar");
}

#[test]
fn modern_index_shards_objects_by_hash_prefix() {
    let inst = instance(meta(vec![], "1.16"));
    let plan = inst.collect_urls(Os::Linux, &one_asset(), &missing(0, 1)).unwrap();
    assert_eq!(plan.tasks.len(), 2);
    assert_eq!(
        task(&plan.tasks[1]),
        (ASSET_URL, "/g/assets/objects/bd/bdf48ef6b5d0d23bbb02e17d04865216179f510a", false)
    );
}

#[test]
fn pre_1_6_index_uses_legacy_layout() {
    let inst = instance(meta(vec![], "pre-1.6"));
    let plan = inst.collect_urls(Os::Linux, &one_asset(), &missing(0, 1)).unwrap();
    assert_eq!(plan.tasks[1].path, "/g/instances/test/resources/icons/icon_16x16.png");
}

#[test]
fn present_assets_are_skipped() {
    let inst = instance(meta(vec![], "legacy"));
    let local = LocalFiles { client: FileStatus::Valid, libraries: vec![], assets_present: vec![true] };
    let plan = inst.collect_urls(Os::Windows, &one_asset(), &local).unwrap();
    assert!(plan.tasks.is_empty());
}

#[test]
fn native_key_without_classifiers_is_an_error() {
    let mut lib = native_library();
    lib.downloads.classifiers = None;
    let inst = instance(meta(vec![plain_library("ok", "ok.jar", None), lib], "legacy"));
    match inst.collect_urls(Os::Windows, &one_asset(), &missing(2, 1)) {
        Err(DownloadError::LibraryNoClassifiers(n)) => assert_eq!(n, "org.lwjgl:lwjgl:3.2.2"),
        other => panic!("unexpected {:?}", other),
    }
    // Linux has no classifier key for this library, so nothing is wrong there.
    assert!(inst.collect_urls(Os::Linux, &one_asset(), &missing(2, 1)).is_ok());
}

#[test]
fn short_asset_digest_is_an_error() {
    let inst = instance(meta(vec![], "1.16"));
    let assets = Assets { objects: vec![(s("x"), AssetObject { hash: s("a"), size: 1 })] };
    match inst.collect_urls(Os::Linux, &assets, &missing(0, 1)) {
        Err(DownloadError::AssetHashTooShort(k)) => assert_eq!(k, "x"),
        other => panic!("unexpected {:?}", other),
    }
}

fn allow(os: &str) -> Rule {
    Rule { action: s("allow"), os: Some(s(os)) }
}

#[test]
fn classpath_filters_by_rules_and_ends_with_client_jar() {
    let libs = vec![
        plain_library("free", "free.jar", None),
        plain_library("win", "win.jar", Some(vec![allow("windows")])),
        plain_library("mac", "mac.jar", Some(vec![allow("osx")])),
        plain_library("notlinux", "nl.jar", Some(vec![Rule { action: s("disallow"), os: Some(s("linux")) }])),
        plain_library("any", "any.jar", Some(vec![Rule { action: s("allow"), os: None }])),
    ];
    let inst = instance(meta(libs, "1.16"));
    let cp = inst.get_classpath("linux").unwrap();
    assert_eq!(cp, format!("/g/libraries/free.jar:/g/libraries/any.jar:{}", CLIENT_JAR));
    let cp = inst.get_classpath("windows").unwrap();
    assert_eq!(
        cp,
        format!("/g/libraries/free.jar;/g/libraries/win.jar;/g/libraries/nl.jar;/g/libraries/any.jar;{}", CLIENT_JAR)
    );
    let cp = inst.get_classpath("macos").unwrap();
    assert!(cp.contains("/g/libraries/mac.jar:"));
    assert!(cp.ends_with(CLIENT_JAR));
    let empty = instance(meta(vec![], "1.16"));
    assert_eq!(empty.get_classpath("linux").unwrap(), CLIENT_JAR);
}

#[test]
fn game_options_substitute_placeholders() {
    let mut inst = instance(meta(vec![], "1.16"));
    inst.create_state().unwrap();
    let account = Account { uuid: s("u-1"), access_token: s("tok") };
    let args = inst.get_game_options("Watson17", Some(&account)).unwrap();
    assert_eq!(
        args,
        vec![
            "--username", "Watson17", "--version", "1.16.4", "--assetIndex", "1.16", "--uuid", "u-1",
            "--userType", "mojang", "--versionType", "release", "--gameDir", ".", "--assetsDir", "/g/assets",
            "${unknown_key}",
        ]
    );
    assert!(!args.iter().any(|a| a.contains("${auth_player_name}") || a.contains("${version_name}")));
    let anonymous = inst.get_game_options("Watson17", None).unwrap();
    assert_eq!(anonymous[7], "");
}

#[test]
fn game_options_take_version_from_state() {
    let mut inst = instance(meta(vec![], "1.16"));
    inst.state.insert(s("net.minecraft"), Component::Game { version: s("1.12.2") });
    let args = inst.get_game_options("Watson17", None).unwrap();
    assert_eq!(args[3], "1.12.2");
}

#[test]
fn game_options_errors() {
    let inst = instance(meta(vec![], "1.16"));
    match inst.get_game_options("Watson17", None) {
        Err(LaunchError::ComponentNotFound(n)) => assert_eq!(n, "net.minecraft"),
        other => panic!("unexpected {:?}", other),
    }
    let mut m = meta(vec![], "1.16");
    m.game_arguments = None;
    let mut inst = instance(m);
    inst.create_state().unwrap();
    assert!(matches!(
        inst.get_game_options("Watson17", None),
        Err(LaunchError::ArgumentsNotFound(LaunchArguments::Game))
    ));
}

#[test]
fn jvm_arguments_fallback_and_templates() {
    let mut inst = instance(meta(vec![], "1.16"));
    inst.create_state().unwrap();
    let args = inst.get_jvm_arguments("a.jar;b.jar").unwrap();
    assert_eq!(args, vec!["-Djava.library.path=/g/instances/test/natives", "-cp", "a.jar;b.jar"]);

    let mut m = meta(vec![], "1.16");
    m.jvm_arguments = Some(vec![
        s("-Djava.library.path=${natives_directory}"),
        s("-Dminecraft.launcher.brand=${launcher_name}"),
        s("-Dminecraft.launcher.version=${launcher_version}"),
        s("-cp"),
        s("${classpath}"),
    ]);
    let mut inst = instance(m);
    inst.state.insert(s("java"), Component::Java { path: s("java"), arguments: Some(s("  -Xmx2G\t-Xms1G \n")) });
    let args = inst.get_jvm_arguments("c.jar").unwrap();
    assert_eq!(
        args,
        vec![
            "-Djava.library.path=/g/instances/test/natives",
            "-Dminecraft.launcher.brand=rimca",
            "-Dminecraft.launcher.version=3.0",
            "-cp",
            "c.jar",
            "-Xmx2G",
            "-Xms1G",
        ]
    );
}

#[test]
fn jvm_arguments_need_java_component() {
    let mut m = meta(vec![], "1.16");
    m.jvm_arguments = Some(vec![s("-cp"), s("${classpath}")]);
    let mut inst = instance(m);
    inst.state.insert(s("net.minecraft"), Component::Game { version: s("1.16.4") });
    match inst.get_jvm_arguments("c.jar") {
        Err(LaunchError::ComponentNotFound(n)) => assert_eq!(n, "java"),
        other => panic!("unexpected {:?}", other),
    }
    inst.state.insert(s("java"), Component::Game { version: s("x") });
    assert!(matches!(inst.get_jvm_arguments("c.jar"), Err(LaunchError::ComponentNotFound(_))));
}

#[test]
fn test_launch() {
    let mut inst = instance(meta(vec![native_library(), plain_library("a", "a/a.jar", None)], "1.16"));
    inst.create_state().unwrap();
    let main = inst.get_main_class().unwrap();
    assert_eq!(main, "net.minecraft.client.main.Main");
    let cp = inst.get_classpath("windows").unwrap();
    let jvm = inst.get_jvm_arguments(&cp).unwrap();
    assert_eq!(jvm[2], cp);
    let game = inst.get_game_options("Watson17", None).unwrap();
    assert_eq!(game[1], "Watson17");
}

#[test]
fn state_insert_replaces_and_get_finds() {
    let mut st = State::new();
    assert!(st.get_component("java").is_err());
    st.insert(s("java"), Component::Java { path: s("/usr/bin/java"), arguments: None });
    st.insert(s("java"), Component::Java { path: s("java"), arguments: Some(s("-Xmx1G")) });
    assert_eq!(st.components.len(), 1);
    match st.get_component("java") {
        Ok(Component::Java { path, arguments }) => {
            assert_eq!(path, "java");
            assert_eq!(arguments.as_deref(), Some("-Xmx1G"));
        }
        other => panic!("unexpected {:?}", other),
    }
    match st.get_component("net.minecraft") {
        Err(LaunchError::ComponentNotFound(n)) => assert_eq!(n, "net.minecraft"),
        other => panic!("unexpected {:?}", other),
    }
}

#[test]
fn create_state_records_java_and_game() {
    let mut inst = instance(meta(vec![], "1.16"));
    inst.state.insert(s("java"), Component::Java { path: s("/old"), arguments: Some(s("-X")) });
    inst.create_state().unwrap();
    inst.create_state().unwrap();
    assert_eq!(inst.state().components.len(), 2);
    assert_eq!(inst.paths().natives, "/g/instances/test/natives");
    match inst.state.get_component("java") {
        Ok(Component::Java { path, arguments }) => {
            assert_eq!(path, "java");
            assert!(arguments.is_none());
        }
        other => panic!("unexpected {:?}", other),
    }
    match inst.state.get_component("net.minecraft") {
        Ok(Component::Game { version }) => assert_eq!(version, "1.16.4"),
        other => panic!("unexpected {:?}", other),
    }
}

#[test]
fn find_version_matches_exactly() {
    let vs = vec![
        Version { id: s("1.16.4-rc1"), url: s("u0") },
        Version { id: s("1.16.4"), url: s("u1") },
        Version { id: s("1.16.4"), url: s("u2") },
    ];
    assert_eq!(find_version(&vs, "1.16.4").unwrap().url, "u1");
    match find_version(&vs, "1.16") {
        Err(DownloadError::GameVersionNotFound(n)) => assert_eq!(n, "1.16"),
        other => panic!("unexpected {:?}", other),
    }
}

#[test]
fn cleanup_keeps_only_dlls() {
    let w = Os::Windows;
    assert_eq!(cleanup_action(w, EntryKind::File, Some("dll")), CleanupAction::Keep);
    assert_eq!(cleanup_action(w, EntryKind::File, Some("so")), CleanupAction::RemoveFile);
    assert_eq!(cleanup_action(w, EntryKind::File, Some("DLL")), CleanupAction::RemoveFile);
    assert_eq!(cleanup_action(w, EntryKind::File, None), CleanupAction::RemoveFile);
    assert_eq!(cleanup_action(w, EntryKind::Dir, None), CleanupAction::RemoveDirAll);
    assert_eq!(cleanup_action(w, EntryKind::Other, Some("x")), CleanupAction::Keep);
    assert_eq!(cleanup_action(Os::Linux, EntryKind::File, Some("so")), CleanupAction::Keep);
    assert_eq!(cleanup_action(Os::Linux, EntryKind::File, Some("dll")), CleanupAction::RemoveFile);
    assert_eq!(cleanup_action(Os::MacOs, EntryKind::File, Some("dylib")), CleanupAction::Keep);
    assert_eq!(cleanup_action(Os::MacOs, EntryKind::Dir, None), CleanupAction::RemoveDirAll);
}

#[test]
fn text_helpers() {
    assert_eq!(replace_all("aaaa", "aa", "b"), "bb");
    assert_eq!(replace_all("aaa", "aa", "b"), "ba");
    assert_eq!(replace_all("x${a}y${a}", "${a}", "é"), "xéyé");
    assert_eq!(replace_all("", "a", "b"), "");
    let pairs = vec![(s("${a}"), s("${b}")), (s("${b}"), s("z"))];
    assert_eq!(substitute_all("${a}-${b}", &pairs), "z-z");
    assert!(str_eq("héllo", "héllo"));
    assert!(!str_eq("hello", "hell"));
    assert!(!str_eq("abc", "abd"));
}

#[test]
fn os_names() {
    assert_eq!(os_from_name("windows"), Os::Windows);
    assert_eq!(os_from_name("linux"), Os::Linux);
    assert_eq!(os_from_name("osx"), Os::MacOs);
    assert_eq!(os_from_name("macos"), Os::MacOs);
    assert_eq!(os_from_name("freebsd"), Os::Other);
}

#[test]
fn destination_helpers() {
    assert_eq!(client_jar("/g/libraries", "1.16.4"), CLIENT_JAR);
    assert_eq!(artifact_destination("/r", &artifact("a/b.jar", "u")), "/r/a/b.jar");
    assert!(is_legacy_index("legacy"));
    assert!(is_legacy_index("pre-1.6"));
    assert!(!is_legacy_index("1.16"));
    assert_eq!(
        asset_destination(&paths(), false, "k", HASH),
        "/g/assets/objects/bd/bdf48ef6b5d0d23bbb02e17d04865216179f510a"
    );
    assert_eq!(asset_destination(&paths(), true, "a/b.ogg", HASH), "/g/instances/test/resources/a/b.ogg");
}

#[test]
fn substitute_each_keeps_order() {
    let pairs = vec![(s("${x}"), s("1"))];
    let out = substitute_each(&vec![s("a${x}"), s("b"), s("${x}${x}")], &pairs);
    assert_eq!(out, vec!["a1", "b", "11"]);
}

#[test]
fn rules_compare_os_names() {
    let libs = vec![
        plain_library("sol", "sol.jar", Some(vec![allow("solaris")])),
        plain_library("bsd", "bsd.jar", Some(vec![allow("freebsd")])),
        plain_library("nosol", "nosol.jar", Some(vec![Rule { action: s("disallow"), os: Some(s("solaris")) }])),
    ];
    let inst = instance(meta(libs, "1.16"));
    let cp = inst.get_classpath("freebsd").unwrap();
    assert_eq!(cp, format!("/g/libraries/bsd.jar:/g/libraries/nosol.jar:{}", CLIENT_JAR));
}

#[test]
fn shared_destination_is_fetched_once() {
    let inst = instance(meta(vec![], "1.16"));
    let assets = Assets {
        objects: vec![
            (s("a.png"), AssetObject { hash: s(HASH), size: 1 }),
            (s("b.png"), AssetObject { hash: s(HASH), size: 1 }),
        ],
    };
    let plan = inst.collect_urls(Os::Linux, &assets, &missing(0, 2)).unwrap();
    assert_eq!(plan.tasks.len(), 2);
    assert_eq!(plan.tasks[1].path, "/g/assets/objects/bd/bdf48ef6b5d0d23bbb02e17d04865216179f510a");
    let legacy = instance(meta(vec![], "legacy"));
    let plan = legacy.collect_urls(Os::Linux, &assets, &missing(0, 2)).unwrap();
    assert_eq!(plan.tasks.len(), 3);
}

#[test]
fn client_jar_follows_resolved_version() {
    let mut inst = instance(meta(vec![], "1.16"));
    inst.inner.version.id = s("1.16.4-custom");
    let plan = inst.collect_urls(Os::Linux, &Assets { objects: vec![] }, &missing(0, 0)).unwrap();
    assert_eq!(
        plan.tasks[0].path,
        "/g/libraries/com/mojang/minecraft/1.16.4-custom/minecraft-1.16.4-custom-client.jar"
    );
}
