use vstd::prelude::*;
use crate::error::{LaunchArguments, LaunchError};
use crate::instance::Instance;
use crate::models::{Account, Library, Meta, Paths, Rule};
use crate::state::{Component, ComponentView};
use crate::text::{
    pairs_view, split_words, str_eq, substitute_each, substituted, substituted_each, views,
    whitespace_words,
};

verus! {

/// The operating-system name that a rule's name stands for: "osx" is the old
/// name of "macos"; every other name stands for itself.
pub open spec fn canonical_os_name(n: Seq<char>) -> Seq<char> {
    if n == "osx"@ {
        "macos"@
    } else {
        n
    }
}

/// Whether the rule excludes its library on the system named `os` (as
/// `std::env::consts::OS` names it): an "allow" for another system, or a
/// "disallow" for this one.
pub open spec fn rule_excludes(r: Rule, os: Seq<char>) -> bool {
    match r.os {
        Some(name) => (r.action@ == "allow"@ && canonical_os_name(name@) != os) || (r.action@
            == "disallow"@ && canonical_os_name(name@) == os),
        None => false,
    }
}

/// The separator of path lists on the system named `os`: ';' on Windows, ':' elsewhere.
pub open spec fn path_list_separator(os: Seq<char>) -> Seq<char> {
    if os == "windows"@ {
        ";"@
    } else {
        ":"@
    }
}

/// Whether the library takes part in the classpath on `os`.
pub open spec fn library_allowed(lib: Library, os: Seq<char>) -> bool {
    match lib.rules {
        None => true,
        Some(rules) => forall|i: int| 0 <= i < rules@.len() ==> !rule_excludes(#[trigger] rules@[i], os),
    }
}

/// What one library adds to the classpath on `os`: its artifact under the
/// libraries root, followed by the system's path-list separator.
pub open spec fn classpath_entry(lib: Library, root: Seq<char>, os: Seq<char>) -> Seq<char> {
    if library_allowed(lib, os) && lib.downloads.artifact is Some {
        root + "/"@ + lib.downloads.artifact.unwrap().path@ + path_list_separator(os)
    } else {
        Seq::empty()
    }
}

/// The classpath entries of the libraries, in manifest order.
pub open spec fn classpath_entries(libs: Seq<Library>, root: Seq<char>, os: Seq<char>) -> Seq<char>
    decreases libs.len(),
{
    if libs.len() == 0 {
        Seq::empty()
    } else {
        classpath_entries(libs.drop_last(), root, os) + classpath_entry(libs.last(), root, os)
    }
}

/// Where the client jar of version `id` is installed under the libraries root.
pub open spec fn client_jar_path(root: Seq<char>, id: Seq<char>) -> Seq<char> {
    root + "/com/mojang/minecraft/"@ + id + "/minecraft-"@ + id + "-client.jar"@
}

/// The placeholder substitutions of the game arguments, in the order they are applied.
pub open spec fn game_pairs(
    username: Seq<char>,
    version: Seq<char>,
    paths: Paths,
    meta: Meta,
    uuid: Seq<char>,
    token: Seq<char>,
) -> Seq<(Seq<char>, Seq<char>)> {
    seq![
        ("${auth_player_name}"@, username),
        ("${version_name}"@, version),
        ("${game_directory}"@, "."@),
        ("${assets_root}"@, paths.assets@),
        ("${assets_index_name}"@, meta.asset_index.id@),
        ("${auth_uuid}"@, uuid),
        ("${auth_access_token}"@, token),
        ("${user_type}"@, "mojang"@),
        ("${version_type}"@, meta.release_type@),
        ("${user_properties}"@, "{}"@),
        ("${game_assets}"@, paths.resources@),
        ("${auth_session}"@, "{}"@),
    ]
}

/// The placeholder substitutions of the JVM arguments, in the order they are applied.
pub open spec fn jvm_pairs(natives: Seq<char>, classpath: Seq<char>) -> Seq<(Seq<char>, Seq<char>)> {
    seq![
        ("${natives_directory}"@, natives),
        ("${launcher_name}"@, "rimca"@),
        ("${launcher_version}"@, "3.0"@),
        ("${classpath}"@, classpath),
    ]
}

/// The JVM arguments before the runtime's extra arguments: the manifest's
/// templates substituted, or the minimal fallback.
pub open spec fn jvm_base(meta: Meta, natives: Seq<char>, classpath: Seq<char>) -> Seq<Seq<char>> {
    match meta.jvm_arguments {
        Some(ts) => substituted_each(ts@, jvm_pairs(natives, classpath)),
        None => seq!["-Djava.library.path="@ + natives, "-cp"@, classpath],
    }
}

/// The game version that the state records as installed.
pub open spec fn installed_version(st: Map<Seq<char>, ComponentView>) -> Option<Seq<char>> {
    if st.contains_key("net.minecraft"@) {
        match st["net.minecraft"@] {
            ComponentView::Game { version } => Some(version),
            _ => None,
        }
    } else {
        None
    }
}

/// The extra arguments of the recorded Java runtime; `None` when there is no such record.
pub open spec fn java_extra(st: Map<Seq<char>, ComponentView>) -> Option<Seq<Seq<char>>> {
    if st.contains_key("java"@) {
        match st["java"@] {
            ComponentView::Java { arguments, .. } => Some(
                match arguments {
                    Some(a) => whitespace_words(a),
                    None => Seq::empty(),
                },
            ),
            _ => None,
        }
    } else {
        None
    }
}

pub open spec fn is_not_found(r: LaunchError, name: Seq<char>) -> bool {
    match r {
        LaunchError::ComponentNotFound(n) => n@ == name,
        _ => false,
    }
}

fn rule_excludes_exec(r: &Rule, os: &str) -> (b: bool)
    ensures
        b == rule_excludes(*r, os@),
{
    match &r.os {
        Some(name) => {
            let same = if str_eq(name.as_str(), "osx") {
                str_eq("macos", os)
            } else {
                str_eq(name.as_str(), os)
            };
            (str_eq(r.action.as_str(), "allow") && !same) || (str_eq(r.action.as_str(), "disallow") && same)
        },
        None => false,
    }
}

/// Whether the library's rules let it into the classpath on `os`.
pub fn is_library_allowed(lib: &Library, os: &str) -> (b: bool)
    ensures
        b == library_allowed(*lib, os@),
{
    match &lib.rules {
        None => true,
        Some(rules) => {
            let mut i: usize = 0;
            while i < rules.len()
                invariant
                    lib.rules == Some(*rules),
                    i <= rules@.len(),
                    forall|j: int| 0 <= j < i ==> !rule_excludes(#[trigger] rules@[j], os@),
                decreases rules@.len() - i,
            {
                if rule_excludes_exec(&rules[i], os) {
                    assert(rule_excludes(rules@[i as int], os@));
                    assert(lib.rules.unwrap()@[i as int] == rules@[i as int]);
                    assert(!library_allowed(*lib, os@));
                    return false;
                }
                i = i + 1;
            }
            true
        },
    }
}

/// Whether the library's only rule allows it on Windows.
pub open spec fn only_allows_windows(lib: Library) -> bool {
    match lib.rules {
        Some(rules) => rules@.len() == 1 && rules@[0].action@ == "allow"@ && match rules@[0].os {
            Some(n) => n@ == "windows"@,
            None => false,
        },
        None => false,
    }
}

/// Rules hold as stated: a library without rules is always in the classpath, and
/// one whose only rule allows it on Windows is left out on every other system.
pub proof fn lemma_rule_filter(lib: Library, os: Seq<char>)
    ensures
        lib.rules is None ==> library_allowed(lib, os),
        only_allows_windows(lib) && os != "windows"@ ==> !library_allowed(lib, os),
{
    if only_allows_windows(lib) && os != "windows"@ {
        let rules = lib.rules.unwrap();
        reveal_strlit("windows");
        reveal_strlit("osx");
        assert("windows"@.len() != "osx"@.len());
        assert(rule_excludes(rules@[0], os));
    }
}

/// The classpath always ends with the client jar, after the library entries.
pub proof fn lemma_classpath_ends_with_client_jar(libs: Seq<Library>, root: Seq<char>, id: Seq<char>, os: Seq<char>)
    ensures
        ({
            let cp = classpath_entries(libs, root, os) + client_jar_path(root, id);
            let jar = client_jar_path(root, id);
            cp.len() >= jar.len() && cp.subrange(cp.len() - jar.len(), cp.len() as int) == jar
        }),
{
    let e = classpath_entries(libs, root, os);
    let jar = client_jar_path(root, id);
    assert((e + jar).subrange(e.len() as int, (e + jar).len() as int) =~= jar);
}

fn pair(k: &str, v: &str) -> (r: (String, String))
    ensures
        r.0@ == k@,
        r.1@ == v@,
{
    (String::from_str(k), String::from_str(v))
}

impl Instance {
    /// The manifest's main class.
    pub fn get_main_class(&self) -> (r: Result<String, LaunchError>)
        ensures
            r matches Ok(s) && s@ == self.inner.meta.main_class@,
    {
        Ok(self.inner.meta.main_class.clone())
    }

    /// The classpath on the system named `os`: each allowed library's artifact
    /// under the libraries root, each followed by the path-list separator, then
    /// the client jar.
    pub fn get_classpath(&self, os: &str) -> (r: Result<String, LaunchError>)
        ensures
            r matches Ok(s) && s@ == classpath_entries(self.inner.meta.libraries@, self.paths.libraries@, os@)
                + client_jar_path(self.paths.libraries@, self.inner.meta.id@),
    {
        let libs = &self.inner.meta.libraries;
        let root = self.paths.libraries.as_str();
        let sep = if str_eq(os, "windows") {
            ";"
        } else {
            ":"
        };
        let mut cp = String::new();
        let mut i: usize = 0;
        while i < libs.len()
            invariant
                libs == self.inner.meta.libraries,
                root@ == self.paths.libraries@,
                i <= libs@.len(),
                cp@ == classpath_entries(libs@.subrange(0, i as int), root@, os@),
                sep@ == path_list_separator(os@),
            decreases libs@.len() - i,
        {
            let lib = &libs[i];
            assert(libs@.subrange(0, i + 1).drop_last() =~= libs@.subrange(0, i as int));
            assert(libs@.subrange(0, i + 1).last() == libs@[i as int]);
            if is_library_allowed(lib, os) {
                match &lib.downloads.artifact {
                    Some(a) => {
                        let ghost before = cp@;
                        cp.append(root);
                        cp.append("/");
                        cp.append(a.path.as_str());
                        cp.append(sep);
                        assert(cp@ =~= before + (root@ + "/"@ + a.path@ + sep@));
                    },
                    None => {
                        assert(cp@ =~= cp@ + Seq::<char>::empty());
                    },
                }
            } else {
                assert(cp@ =~= cp@ + Seq::<char>::empty());
            }
            i = i + 1;
        }
        assert(libs@.subrange(0, i as int) =~= libs@);
        let ghost before = cp@;
        let id = self.inner.meta.id.as_str();
        cp.append(root);
        cp.append("/com/mojang/minecraft/");
        cp.append(id);
        cp.append("/minecraft-");
        cp.append(id);
        cp.append("-client.jar");
        assert(cp@ =~= before + client_jar_path(root@, id@));
        Ok(cp)
    }

    /// The game arguments: the manifest's "game" templates with the placeholders
    /// of `game_pairs` substituted. The version comes from the installation state;
    /// without an account the credentials are empty.
    pub fn get_game_options(&self, username: &str, account: Option<&Account>) -> (r: Result<
        Vec<String>,
        LaunchError,
    >)
        ensures
            installed_version(self.state@) is None ==> (r matches Err(e) && is_not_found(
                e,
                "net.minecraft"@,
            )),
            installed_version(self.state@) is Some && self.inner.meta.game_arguments is None ==> (r matches Err(
                e,
            ) && e == LaunchError::ArgumentsNotFound(LaunchArguments::Game)),
            installed_version(self.state@) matches Some(version) ==> (self.inner.meta.game_arguments matches Some(
                ts,
            ) ==> (r matches Ok(v) && views(v@) == substituted_each(
                ts@,
                game_pairs(
                    username@,
                    version,
                    self.paths,
                    self.inner.meta,
                    match account {
                        Some(a) => a.uuid@,
                        None => Seq::empty(),
                    },
                    match account {
                        Some(a) => a.access_token@,
                        None => Seq::empty(),
                    },
                ),
            ))),
    {
        let version = match self.state.get_component("net.minecraft") {
            Ok(Component::Game { version }) => version,
            _ => {
                return Err(LaunchError::ComponentNotFound(String::from_str("net.minecraft")));
            },
        };
        let meta = &self.inner.meta;
        let ts = match &meta.game_arguments {
            Some(ts) => ts,
            None => {
                return Err(LaunchError::ArgumentsNotFound(LaunchArguments::Game));
            },
        };
        let (uuid, token) = match account {
            Some(a) => (a.uuid.clone(), a.access_token.clone()),
            None => (String::new(), String::new()),
        };
        let pairs = vec![
            pair("${auth_player_name}", username),
            pair("${version_name}", version.as_str()),
            pair("${game_directory}", "."),
            pair("${assets_root}", self.paths.assets.as_str()),
            pair("${assets_index_name}", meta.asset_index.id.as_str()),
            pair("${auth_uuid}", uuid.as_str()),
            pair("${auth_access_token}", token.as_str()),
            pair("${user_type}", "mojang"),
            pair("${version_type}", meta.release_type.as_str()),
            pair("${user_properties}", "{}"),
            pair("${game_assets}", self.paths.resources.as_str()),
            pair("${auth_session}", "{}"),
        ];
        proof {
            reveal_strlit("${auth_player_name}");
            reveal_strlit("${version_name}");
            reveal_strlit("${game_directory}");
            reveal_strlit("${assets_root}");
            reveal_strlit("${assets_index_name}");
            reveal_strlit("${auth_uuid}");
            reveal_strlit("${auth_access_token}");
            reveal_strlit("${user_type}");
            reveal_strlit("${version_type}");
            reveal_strlit("${user_properties}");
            reveal_strlit("${game_assets}");
            reveal_strlit("${auth_session}");
            assert(pairs_view(pairs@) =~= game_pairs(
                username@,
                version@,
                self.paths,
                *meta,
                uuid@,
                token@,
            ));
        }
        Ok(substitute_each(ts, &pairs))
    }

    /// The JVM arguments: the manifest's "jvm" templates with `jvm_pairs`
    /// substituted (or the minimal fallback), then the recorded Java runtime's
    /// extra arguments split at whitespace. Fails when no Java runtime is recorded.
    pub fn get_jvm_arguments(&self, classpath: &str) -> (r: Result<Vec<String>, LaunchError>)
        ensures
            java_extra(self.state@) matches Some(extra) ==> (r matches Ok(v) && views(v@) == jvm_base(
                self.inner.meta,
                self.paths.natives@,
                classpath@,
            ) + extra),
            java_extra(self.state@) is None ==> (r matches Err(e) && is_not_found(e, "java"@)),
    {
        let natives = self.paths.natives.as_str();
        let mut args = match &self.inner.meta.jvm_arguments {
            Some(ts) => {
                let pairs = vec![
                    pair("${natives_directory}", natives),
                    pair("${launcher_name}", "rimca"),
                    pair("${launcher_version}", "3.0"),
                    pair("${classpath}", classpath),
                ];
                proof {
                    reveal_strlit("${natives_directory}");
                    reveal_strlit("${launcher_name}");
                    reveal_strlit("${launcher_version}");
                    reveal_strlit("${classpath}");
                    assert(pairs_view(pairs@) =~= jvm_pairs(natives@, classpath@));
                }
                substitute_each(ts, &pairs)
            },
            None => {
                let mut flag = String::from_str("-Djava.library.path=");
                flag.append(natives);
                let v = vec![flag, String::from_str("-cp"), String::from_str(classpath)];
                assert(views(v@) =~= jvm_base(self.inner.meta, natives@, classpath@));
                v
            },
        };
        match self.state.get_component("java") {
            Ok(Component::Java { arguments, .. }) => {
                let ghost base = args@;
                match arguments {
                    Some(a) => {
                        let mut words = split_words(a.as_str());
                        args.append(&mut words);
                        assert(views(args@) =~= views(base) + whitespace_words(a@));
                    },
                    None => {
                        assert(views(args@) =~= views(base) + Seq::<Seq<char>>::empty());
                    },
                }
                Ok(args)
            },
            _ => Err(LaunchError::ComponentNotFound(String::from_str("java"))),
        }
    }
}

} // verus!
