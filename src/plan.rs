use vstd::prelude::*;
use crate::error::DownloadError;
use crate::instance::Instance;
use crate::launch::client_jar_path;
use crate::models::{Artifact, AssetObject, Assets, Library, Meta, Os, Paths};
use crate::text::str_eq;

verus! {

/// What the filesystem shows of a destination that has an expected digest.
#[derive(Clone, Copy, Debug, PartialEq, Eq, Structural)]
pub enum FileStatus {
    Missing,
    /// Present, but its digest differs from the expected one.
    Corrupt,
    Valid,
}

/// What the filesystem shows of every destination the planner considers:
/// the client jar, each library artifact (in manifest order, whether or not
/// the library has one) and each asset object (in asset-index order).
#[derive(Debug)]
pub struct LocalFiles {
    pub client: FileStatus,
    pub libraries: Vec<FileStatus>,
    pub assets_present: Vec<bool>,
}

/// One file to fetch; `unzip` marks a native archive to extract into `path`.
#[derive(Debug)]
pub struct DownloadTask {
    pub url: String,
    pub path: String,
    pub unzip: bool,
}

pub ghost struct TaskView {
    pub url: Seq<char>,
    pub path: Seq<char>,
    pub unzip: bool,
}

impl View for DownloadTask {
    type V = TaskView;

    open spec fn view(&self) -> TaskView {
        TaskView { url: self.url@, path: self.path@, unzip: self.unzip }
    }
}

/// The tasks to run, each with the same retry budget.
#[derive(Debug)]
pub struct DownloadPlan {
    pub retries: u32,
    pub tasks: Vec<DownloadTask>,
}

/// The retry budget of every planned task.
pub const RETRIES: u32 = 5;

pub open spec fn task_views(ts: Seq<DownloadTask>) -> Seq<TaskView> {
    ts.map_values(|t: DownloadTask| t@)
}

pub open spec fn needs_download(s: FileStatus) -> bool {
    s != FileStatus::Valid
}

/// The classifier key of the library's native archive for `os`.
pub open spec fn native_key(lib: Library, os: Os) -> Option<String> {
    match lib.natives {
        Some(n) => match os {
            Os::Windows => n.windows,
            Os::Linux => n.linux,
            Os::MacOs => n.macos,
            Os::Other => None,
        },
        None => None,
    }
}

/// The library names a native classifier for `os` but has no classifier map.
pub open spec fn lacks_classifiers(lib: Library, os: Os) -> bool {
    native_key(lib, os) is Some && lib.downloads.classifiers is None
}

/// The index of the first of the first `n` classifiers whose key is `key`.
pub open spec fn classifier_index(cls: Seq<(String, Artifact)>, key: Seq<char>, n: nat) -> Option<int>
    decreases n,
{
    if n == 0 {
        None
    } else {
        let p = classifier_index(cls, key, (n - 1) as nat);
        if p is Some {
            p
        } else if cls[n - 1].0@ == key {
            Some(n - 1)
        } else {
            None
        }
    }
}

pub open spec fn library_path(root: Seq<char>, a: Artifact) -> Seq<char> {
    root + "/"@ + a.path@
}

/// The task that fetches a library's artifact.
pub open spec fn artifact_task(a: Artifact, root: Seq<char>) -> TaskView {
    TaskView { url: a.url@, path: library_path(root, a), unzip: false }
}


/// Whether an in-place fetch (any task but a native archive) of `s` writes to `path`.
pub open spec fn fetches_to(s: Seq<TaskView>, path: Seq<char>) -> bool {
    exists|i: int| 0 <= i < s.len() && !(#[trigger] s[i]).unzip && s[i].path == path
}

/// No two in-place fetches of `s` write to the same destination.
pub open spec fn fetch_paths_distinct(s: Seq<TaskView>) -> bool {
    forall|i: int, j: int|
        #![trigger s[i], s[j]]
        0 <= i < s.len() && 0 <= j < s.len() && i != j && !s[i].unzip && !s[j].unzip ==> s[i].path != s[j].path
}

/// `s` with the fetch `t` added, unless a fetch to the same destination is already planned.
pub open spec fn add_fetch(s: Seq<TaskView>, t: TaskView) -> Seq<TaskView> {
    if fetches_to(s, t.path) {
        s
    } else {
        s.push(t)
    }
}

/// `s` with the library's artifact added when it has one that is missing or corrupt.
pub open spec fn with_artifact(s: Seq<TaskView>, lib: Library, st: FileStatus, root: Seq<char>) -> Seq<TaskView> {
    match lib.downloads.artifact {
        Some(a) => if needs_download(st) {
            add_fetch(s, artifact_task(a, root))
        } else {
            s
        },
        None => s,
    }
}
/// The task of a library's native archive for `os`, extracted into the natives directory.
pub open spec fn native_tasks(lib: Library, os: Os, natives: Seq<char>) -> Seq<TaskView> {
    match native_key(lib, os) {
        Some(k) => match lib.downloads.classifiers {
            Some(cls) => match classifier_index(cls@, k@, cls@.len()) {
                Some(j) => seq![TaskView { url: cls@[j].1.url@, path: natives, unzip: true }],
                None => Seq::empty(),
            },
            None => Seq::empty(),
        },
        None => Seq::empty(),
    }
}

/// `start` followed by what the first `n` libraries add, in manifest order:
/// each one's artifact, then its native archive.
pub open spec fn with_libraries(
    start: Seq<TaskView>,
    libs: Seq<Library>,
    st: Seq<FileStatus>,
    root: Seq<char>,
    natives: Seq<char>,
    os: Os,
    n: nat,
) -> Seq<TaskView>
    decreases n,
{
    if n == 0 {
        start
    } else {
        with_artifact(with_libraries(start, libs, st, root, natives, os, (n - 1) as nat), libs[n - 1], st[n - 1], root)
            + native_tasks(libs[n - 1], os, natives)
    }
}

/// The asset indexes whose objects are stored under `<instance>/resources/<key>`.
pub open spec fn is_legacy(id: Seq<char>) -> bool {
    id == "pre-1.6"@ || id == "legacy"@
}

pub open spec fn asset_url(hash: Seq<char>) -> Seq<char> {
    "https://resources.download.minecraft.net/"@ + hash.subrange(0, 2) + "/"@ + hash
}

pub open spec fn asset_path(key: Seq<char>, hash: Seq<char>, legacy: bool, paths: Paths) -> Seq<char> {
    if legacy {
        paths.instance@ + "/resources/"@ + key
    } else {
        paths.assets@ + "/objects/"@ + hash.subrange(0, 2) + "/"@ + hash
    }
}

/// The task that fetches one asset object.
pub open spec fn asset_task(o: (String, AssetObject), legacy: bool, paths: Paths) -> TaskView {
    TaskView { url: asset_url(o.1.hash@), path: asset_path(o.0@, o.1.hash@, legacy, paths), unzip: false }
}

/// `start` followed by a fetch of each of the first `n` asset objects that is absent.
pub open spec fn with_assets(
    start: Seq<TaskView>,
    objs: Seq<(String, AssetObject)>,
    present: Seq<bool>,
    legacy: bool,
    paths: Paths,
    n: nat,
) -> Seq<TaskView>
    decreases n,
{
    if n == 0 {
        start
    } else {
        let s = with_assets(start, objs, present, legacy, paths, (n - 1) as nat);
        if present[n - 1] {
            s
        } else {
            add_fetch(s, asset_task(objs[n - 1], legacy, paths))
        }
    }
}

/// The task that fetches the client jar of version `id`.
pub open spec fn client_task(id: Seq<char>, meta: Meta, paths: Paths) -> TaskView {
    TaskView { url: meta.client.url@, path: client_jar_path(paths.libraries@, id), unzip: false }
}

pub open spec fn client_tasks(id: Seq<char>, meta: Meta, st: FileStatus, paths: Paths) -> Seq<TaskView> {
    if needs_download(st) {
        seq![client_task(id, meta, paths)]
    } else {
        Seq::empty()
    }
}

/// The whole plan for version `id`: the client jar, then each library's
/// artifact and native archive, then the asset objects; a fetch whose
/// destination is already planned is left out.
pub open spec fn planned(id: Seq<char>, meta: Meta, assets: Assets, paths: Paths, os: Os, local: LocalFiles) -> Seq<TaskView> {
    with_assets(
        with_libraries(
            client_tasks(id, meta, local.client, paths),
            meta.libraries@,
            local.libraries@,
            paths.libraries@,
            paths.natives@,
            os,
            meta.libraries@.len(),
        ),
        assets.objects@,
        local.assets_present@,
        is_legacy(meta.asset_index.id@),
        paths,
        assets.objects@.len(),
    )
}

/// Some entry of `f` holds exactly the characters `p`.
pub open spec fn lists(f: Seq<Vec<char>>, p: Seq<char>) -> bool {
    exists|k: int| 0 <= k < f.len() && (#[trigger] f[k])@ == p
}

proof fn lemma_fetches_push(s: Seq<TaskView>, t: TaskView, p: Seq<char>)
    ensures
        fetches_to(s.push(t), p) == (fetches_to(s, p) || (!t.unzip && t.path == p)),
{
    let u = s.push(t);
    if fetches_to(s, p) {
        let i = choose|i: int| 0 <= i < s.len() && !(#[trigger] s[i]).unzip && s[i].path == p;
        assert(u[i] == s[i]);
    }
    if !t.unzip && t.path == p {
        assert(u[s.len() as int] == t);
    }
    if fetches_to(u, p) {
        let i = choose|i: int| 0 <= i < u.len() && !(#[trigger] u[i]).unzip && u[i].path == p;
        if i < s.len() {
            assert(u[i] == s[i]);
        }
    }
}

proof fn lemma_fetches_natives(s: Seq<TaskView>, x: Seq<TaskView>, p: Seq<char>)
    requires
        forall|k: int| 0 <= k < x.len() ==> (#[trigger] x[k]).unzip,
    ensures
        fetches_to(s + x, p) == fetches_to(s, p),
{
    let u = s + x;
    if fetches_to(s, p) {
        let i = choose|i: int| 0 <= i < s.len() && !(#[trigger] s[i]).unzip && s[i].path == p;
        assert(u[i] == s[i]);
    }
    if fetches_to(u, p) {
        let i = choose|i: int| 0 <= i < u.len() && !(#[trigger] u[i]).unzip && u[i].path == p;
        if i >= s.len() {
            assert(u[i] == x[i - s.len()]);
        } else {
            assert(u[i] == s[i]);
        }
    }
}

/// Every library's native classifier is backed by a classifier map.
pub open spec fn classifiers_backed(libs: Seq<Library>, os: Os) -> bool {
    forall|i: int| 0 <= i < libs.len() ==> !lacks_classifiers(#[trigger] libs[i], os)
}

/// Every asset digest has the two characters that its prefix takes.
pub open spec fn hashes_long_enough(objs: Seq<(String, AssetObject)>) -> bool {
    forall|i: int| 0 <= i < objs.len() ==> (#[trigger] objs[i]).1.hash@.len() >= 2
}

fn find_classifier(cls: &Vec<(String, Artifact)>, key: &str) -> (r: Option<usize>)
    ensures
        r matches Some(j) ==> j < cls@.len() && classifier_index(cls@, key@, cls@.len()) == Some(j as int),
        r is None ==> classifier_index(cls@, key@, cls@.len()) is None,
{
    let mut found: Option<usize> = None;
    let mut i: usize = 0;
    while i < cls.len()
        invariant
            i <= cls@.len(),
            found matches Some(j) ==> j < i && classifier_index(cls@, key@, i as nat) == Some(j as int),
            found is None ==> classifier_index(cls@, key@, i as nat) is None,
        decreases cls@.len() - i,
    {
        if found.is_none() && str_eq(cls[i].0.as_str(), key) {
            found = Some(i);
        }
        i = i + 1;
    }
    found
}

fn concat3(a: &str, b: &str, c: &str) -> (r: String)
    ensures
        r@ == a@ + b@ + c@,
{
    let mut r = String::from_str(a);
    r.append(b);
    r.append(c);
    r
}

/// Where the client jar of version `id` goes under the libraries root.
pub fn client_jar(libraries: &str, id: &str) -> (r: String)
    ensures
        r@ == client_jar_path(libraries@, id@),
{
    let mut path = String::from_str(libraries);
    path.append("/com/mojang/minecraft/");
    path.append(id);
    path.append("/minecraft-");
    path.append(id);
    path.append("-client.jar");
    path
}

/// Where a library's artifact goes under the libraries root.
pub fn artifact_destination(libraries: &str, a: &Artifact) -> (r: String)
    ensures
        r@ == library_path(libraries@, *a),
{
    concat3(libraries, "/", a.path.as_str())
}

/// Whether the asset index of this identifier uses the legacy layout.
pub fn is_legacy_index(id: &str) -> (r: bool)
    ensures
        r == is_legacy(id@),
{
    str_eq(id, "pre-1.6") || str_eq(id, "legacy")
}

/// Where the asset object stored under `key` with digest `hash` goes.
pub fn asset_destination(paths: &Paths, legacy: bool, key: &str, hash: &str) -> (r: String)
    requires
        hash@.len() >= 2,
    ensures
        r@ == asset_path(key@, hash@, legacy, *paths),
{
    if legacy {
        concat3(paths.instance.as_str(), "/resources/", key)
    } else {
        let mut p = concat3(paths.assets.as_str(), "/objects/", hash.substring_char(0, 2));
        p.append("/");
        p.append(hash);
        p
    }
}

fn vec_eq(a: &Vec<char>, b: &Vec<char>) -> (r: bool)
    ensures
        r == (a@ == b@),
{
    if a.len() != b.len() {
        return false;
    }
    let mut i: usize = 0;
    while i < a.len()
        invariant
            a@.len() == b@.len(),
            i <= a@.len(),
            forall|j: int| 0 <= j < i ==> a@[j] == b@[j],
        decreases a@.len() - i,
    {
        if a[i] != b[i] {
            return false;
        }
        i = i + 1;
    }
    assert(a@ =~= b@);
    true
}

fn listed(f: &Vec<Vec<char>>, p: &Vec<char>) -> (r: bool)
    ensures
        r == lists(f@, p@),
{
    let mut k: usize = 0;
    while k < f.len()
        invariant
            k <= f@.len(),
            forall|m: int| 0 <= m < k ==> (#[trigger] f@[m])@ != p@,
        decreases f@.len() - k,
    {
        if vec_eq(&f[k], p) {
            return true;
        }
        k = k + 1;
    }
    false
}

/// Adds the fetch `t` unless a fetch to its destination is already planned;
/// `fetched` lists the destinations of the planned fetches.
fn push_fetch(tasks: &mut Vec<DownloadTask>, fetched: &mut Vec<Vec<char>>, t: DownloadTask)
    requires
        !t.unzip,
        forall|p: Seq<char>| #[trigger] fetches_to(task_views(old(tasks)@), p) == lists(old(fetched)@, p),
    ensures
        task_views(final(tasks)@) == add_fetch(task_views(old(tasks)@), t@),
        forall|p: Seq<char>| #[trigger] fetches_to(task_views(final(tasks)@), p) == lists(final(fetched)@, p),
{
    let pc = crate::text::chars_of(t.path.as_str());
    let ghost tv = t@;
    if !listed(fetched, &pc) {
        let ghost f0 = fetched@;
        let ghost s0 = task_views(tasks@);
        fetched.push(pc);
        tasks.push(t);
        assert(task_views(tasks@) =~= s0.push(tv));
        assert forall|p: Seq<char>| #[trigger] fetches_to(task_views(tasks@), p) == lists(fetched@, p) by {
            lemma_fetches_push(s0, tv, p);
            if lists(f0, p) {
                let k = choose|k: int| 0 <= k < f0.len() && (#[trigger] f0[k])@ == p;
                assert(fetched@[k] == f0[k]);
            }
            if lists(fetched@, p) {
                let k = choose|k: int| 0 <= k < fetched@.len() && (#[trigger] fetched@[k])@ == p;
                if k < f0.len() {
                    assert(fetched@[k] == f0[k]);
                }
            }
            assert(fetched@[f0.len() as int]@ == tv.path);
        }
    }
}

/// Adds the native archive task `t`; it does not change what is fetched in place.
fn push_native(tasks: &mut Vec<DownloadTask>, fetched: &Vec<Vec<char>>, t: DownloadTask)
    requires
        t.unzip,
        forall|p: Seq<char>| #[trigger] fetches_to(task_views(old(tasks)@), p) == lists(fetched@, p),
    ensures
        task_views(final(tasks)@) == task_views(old(tasks)@) + seq![t@],
        forall|p: Seq<char>| #[trigger] fetches_to(task_views(final(tasks)@), p) == lists(fetched@, p),
{
    let ghost s0 = task_views(tasks@);
    let ghost tv = t@;
    tasks.push(t);
    assert(task_views(tasks@) =~= s0 + seq![tv]);
    assert forall|p: Seq<char>| #[trigger] fetches_to(task_views(tasks@), p) == lists(fetched@, p) by {
        lemma_fetches_natives(s0, seq![tv], p);
    }
}
impl Instance {
    /// Plans the downloads of this installation on `os`, given the asset index
    /// and what the filesystem shows. Destinations that are present and valid
    /// are left out, asset objects when present; no destination is fetched twice.
    pub fn collect_urls(&self, os: Os, assets: &Assets, local: &LocalFiles) -> (r: Result<
        DownloadPlan,
        DownloadError,
    >)
        requires
            local.libraries@.len() == self.inner.meta.libraries@.len(),
            local.assets_present@.len() == assets.objects@.len(),
        ensures
            match r {
                Ok(plan) => plan.retries == RETRIES && classifiers_backed(self.inner.meta.libraries@, os)
                    && hashes_long_enough(assets.objects@) && task_views(plan.tasks@) == planned(
                    self.inner.version.id@,
                    self.inner.meta,
                    *assets,
                    self.paths,
                    os,
                    *local,
                ) && fetch_paths_distinct(task_views(plan.tasks@)),
                Err(DownloadError::LibraryNoClassifiers(n)) => exists|i: int|
                    0 <= i < self.inner.meta.libraries@.len() && lacks_classifiers(
                        #[trigger] self.inner.meta.libraries@[i],
                        os,
                    ) && n@ == self.inner.meta.libraries@[i].name@ && classifiers_backed(
                        self.inner.meta.libraries@.subrange(0, i),
                        os,
                    ),
                Err(DownloadError::AssetHashTooShort(k)) => classifiers_backed(self.inner.meta.libraries@, os)
                    && exists|i: int|
                    0 <= i < assets.objects@.len() && (#[trigger] assets.objects@[i]).1.hash@.len() < 2
                        && k@ == assets.objects@[i].0@ && hashes_long_enough(assets.objects@.subrange(0, i)),
                Err(_) => false,
            },
    {
        let meta = &self.inner.meta;
        let paths = &self.paths;
        let id = self.inner.version.id.as_str();
        let mut tasks: Vec<DownloadTask> = Vec::new();
        let mut fetched: Vec<Vec<char>> = Vec::new();
        if local.client != FileStatus::Valid {
            let path = client_jar(paths.libraries.as_str(), id);
            let t = DownloadTask { url: meta.client.url.clone(), path, unzip: false };
            let ghost tv = t@;
            fetched.push(crate::text::chars_of(t.path.as_str()));
            tasks.push(t);
            proof {
                assert(task_views(tasks@) =~= seq![tv]);
                assert forall|p: Seq<char>| #[trigger] fetches_to(task_views(tasks@), p) == lists(fetched@, p) by {
                    lemma_fetches_push(Seq::empty(), tv, p);
                    assert(Seq::<TaskView>::empty().push(tv) =~= seq![tv]);
                    if lists(fetched@, p) {
                        let k = choose|k: int| 0 <= k < fetched@.len() && (#[trigger] fetched@[k])@ == p;
                        assert(k == 0);
                    }
                    assert(fetched@[0]@ == tv.path);
                }
            }
        } else {
            assert forall|p: Seq<char>| #[trigger] fetches_to(task_views(tasks@), p) == lists(fetched@, p) by {}
        }
        assert(task_views(tasks@) =~= client_tasks(id@, *meta, local.client, *paths));
        let ghost start = task_views(tasks@);

        let libs = &meta.libraries;
        let mut i: usize = 0;
        while i < libs.len()
            invariant
                libs == self.inner.meta.libraries,
                meta == self.inner.meta,
                paths == self.paths,
                local.libraries@.len() == libs@.len(),
                i <= libs@.len(),
                classifiers_backed(libs@.subrange(0, i as int), os),
                forall|p: Seq<char>| #[trigger] fetches_to(task_views(tasks@), p) == lists(fetched@, p),
                task_views(tasks@) == with_libraries(
                    start,
                    libs@,
                    local.libraries@,
                    paths.libraries@,
                    paths.natives@,
                    os,
                    i as nat,
                ),
            decreases libs@.len() - i,
        {
            let lib = &libs[i];
            match &lib.downloads.artifact {
                Some(a) => {
                    if local.libraries[i] != FileStatus::Valid {
                        let path = artifact_destination(paths.libraries.as_str(), a);
                        push_fetch(&mut tasks, &mut fetched, DownloadTask { url: a.url.clone(), path, unzip: false });
                    }
                },
                None => {},
            }
            let ghost mid = task_views(tasks@);
            let key = match os {
                Os::Windows => match &lib.natives {
                    Some(n) => &n.windows,
                    None => &None,
                },
                Os::Linux => match &lib.natives {
                    Some(n) => &n.linux,
                    None => &None,
                },
                Os::MacOs => match &lib.natives {
                    Some(n) => &n.macos,
                    None => &None,
                },
                Os::Other => &None,
            };
            assert(*key == native_key(*lib, os));
            match key {
                Some(k) => match &lib.downloads.classifiers {
                    Some(cls) => {
                        match find_classifier(cls, k.as_str()) {
                            Some(j) => {
                                push_native(
                                    &mut tasks,
                                    &fetched,
                                    DownloadTask { url: cls[j].1.url.clone(), path: paths.natives.clone(), unzip: true },
                                );
                                assert(native_tasks(*lib, os, paths.natives@) == seq![
                                    TaskView { url: cls@[j as int].1.url@, path: paths.natives@, unzip: true },
                                ]);
                            },
                            None => {
                                assert(task_views(tasks@) =~= mid + native_tasks(*lib, os, paths.natives@));
                            },
                        }
                    },
                    None => {
                        assert(lacks_classifiers(libs@[i as int], os));
                        return Err(DownloadError::LibraryNoClassifiers(lib.name.clone()));
                    },
                },
                None => {
                    assert(task_views(tasks@) =~= mid + native_tasks(*lib, os, paths.natives@));
                },
            }
            assert(libs@.subrange(0, i + 1) =~= libs@.subrange(0, i as int).push(libs@[i as int]));
            assert forall|j: int| 0 <= j < i + 1 implies !lacks_classifiers(
                #[trigger] libs@.subrange(0, i + 1)[j],
                os,
            ) by {
                if j < i {
                    assert(libs@.subrange(0, i + 1)[j] == libs@.subrange(0, i as int)[j]);
                }
            }
            i = i + 1;
        }
        assert(libs@.subrange(0, i as int) =~= libs@);

        let legacy = is_legacy_index(meta.asset_index.id.as_str());
        let objs = &assets.objects;
        let ghost head = task_views(tasks@);
        let mut k: usize = 0;
        while k < objs.len()
            invariant
                objs == assets.objects,
                paths == self.paths,
                classifiers_backed(self.inner.meta.libraries@, os),
                local.assets_present@.len() == objs@.len(),
                legacy == is_legacy(meta.asset_index.id@),
                k <= objs@.len(),
                hashes_long_enough(objs@.subrange(0, k as int)),
                forall|p: Seq<char>| #[trigger] fetches_to(task_views(tasks@), p) == lists(fetched@, p),
                task_views(tasks@) == with_assets(head, objs@, local.assets_present@, legacy, *paths, k as nat),
            decreases objs@.len() - k,
        {
            let key = &objs[k].0;
            let hash = objs[k].1.hash.as_str();
            if hash.unicode_len() < 2 {
                assert(objs@[k as int].1.hash@.len() < 2);
                return Err(DownloadError::AssetHashTooShort(key.clone()));
            }
            if !local.assets_present[k] {
                let prefix = hash.substring_char(0, 2);
                let mut url = String::from_str("https://resources.download.minecraft.net/");
                url.append(prefix);
                url.append("/");
                url.append(hash);
                let path = asset_destination(paths, legacy, key.as_str(), hash);
                let t = DownloadTask { url, path, unzip: false };
                assert(t@ == asset_task(objs@[k as int], legacy, *paths));
                push_fetch(&mut tasks, &mut fetched, t);
            }
            assert(objs@.subrange(0, k + 1) =~= objs@.subrange(0, k as int).push(objs@[k as int]));
            assert forall|j: int| 0 <= j < k + 1 implies (#[trigger] objs@.subrange(0, k + 1)[j]).1.hash@.len()
                >= 2 by {
                if j < k {
                    assert(objs@.subrange(0, k + 1)[j] == objs@.subrange(0, k as int)[j]);
                }
            }
            k = k + 1;
        }
        assert(objs@.subrange(0, k as int) =~= objs@);
        proof {
            lemma_absent_planned_once(id@, *meta, *assets, *paths, os, *local);
        }
        Ok(DownloadPlan { retries: RETRIES, tasks })
    }
}

proof fn lemma_add_fetch(s: Seq<TaskView>, t: TaskView, p: Seq<char>)
    ensures
        fetch_paths_distinct(s) && !t.unzip ==> fetch_paths_distinct(add_fetch(s, t)),
        fetches_to(s, p) ==> fetches_to(add_fetch(s, t), p),
        !t.unzip ==> fetches_to(add_fetch(s, t), t.path),
{
    lemma_fetches_push(s, t, p);
    lemma_fetches_push(s, t, t.path);
    if fetch_paths_distinct(s) && !t.unzip && !fetches_to(s, t.path) {
        let u = s.push(t);
        assert forall|i: int, j: int|
            #![trigger u[i], u[j]]
            0 <= i < u.len() && 0 <= j < u.len() && i != j && !u[i].unzip && !u[j].unzip implies u[i].path
                != u[j].path by {
            if i == s.len() {
                assert(u[j] == s[j]);
                assert(!(!s[j].unzip && s[j].path == t.path));
            } else if j == s.len() {
                assert(u[i] == s[i]);
                assert(!(!s[i].unzip && s[i].path == t.path));
            } else {
                assert(u[i] == s[i]);
                assert(u[j] == s[j]);
            }
        }
    }
}

proof fn lemma_append_natives(s: Seq<TaskView>, x: Seq<TaskView>)
    requires
        forall|k: int| 0 <= k < x.len() ==> (#[trigger] x[k]).unzip,
    ensures
        fetch_paths_distinct(s) ==> fetch_paths_distinct(s + x),
        (forall|k: int| 0 <= k < s.len() ==> (#[trigger] s[k]).unzip) ==> (forall|k: int|
            0 <= k < (s + x).len() ==> (#[trigger] (s + x)[k]).unzip),
{
    let u = s + x;
    assert forall|k: int| s.len() <= k < u.len() implies (#[trigger] u[k]).unzip by {
        assert(u[k] == x[k - s.len()]);
    }
    assert forall|k: int| 0 <= k < s.len() implies #[trigger] u[k] == s[k] by {}
}

proof fn lemma_native_tasks_unzip(lib: Library, os: Os, natives: Seq<char>)
    ensures
        forall|k: int| 0 <= k < native_tasks(lib, os, natives).len() ==> (#[trigger] native_tasks(lib, os, natives)[k]).unzip,
{
}

proof fn lemma_with_libraries(
    start: Seq<TaskView>,
    libs: Seq<Library>,
    st: Seq<FileStatus>,
    root: Seq<char>,
    natives: Seq<char>,
    os: Os,
    n: nat,
    p: Seq<char>,
)
    requires
        n <= libs.len(),
        n <= st.len(),
    ensures
        fetch_paths_distinct(start) ==> fetch_paths_distinct(with_libraries(start, libs, st, root, natives, os, n)),
        fetches_to(start, p) ==> fetches_to(with_libraries(start, libs, st, root, natives, os, n), p),
    decreases n,
{
    if n > 0 {
        let prev = with_libraries(start, libs, st, root, natives, os, (n - 1) as nat);
        lemma_with_libraries(start, libs, st, root, natives, os, (n - 1) as nat, p);
        let s2 = with_artifact(prev, libs[n - 1], st[n - 1], root);
        if libs[n - 1].downloads.artifact is Some {
            lemma_add_fetch(prev, artifact_task(libs[n - 1].downloads.artifact.unwrap(), root), p);
        }
        lemma_native_tasks_unzip(libs[n - 1], os, natives);
        lemma_append_natives(s2, native_tasks(libs[n - 1], os, natives));
        lemma_fetches_natives(s2, native_tasks(libs[n - 1], os, natives), p);
    }
}

proof fn lemma_library_fetched(
    start: Seq<TaskView>,
    libs: Seq<Library>,
    st: Seq<FileStatus>,
    root: Seq<char>,
    natives: Seq<char>,
    os: Os,
    n: nat,
    i: int,
)
    requires
        0 <= i < n <= libs.len(),
        n <= st.len(),
        libs[i].downloads.artifact is Some,
        needs_download(st[i]),
    ensures
        fetches_to(
            with_libraries(start, libs, st, root, natives, os, n),
            library_path(root, libs[i].downloads.artifact.unwrap()),
        ),
    decreases n,
{
    let path = library_path(root, libs[i].downloads.artifact.unwrap());
    let prev = with_libraries(start, libs, st, root, natives, os, (n - 1) as nat);
    let s2 = with_artifact(prev, libs[n - 1], st[n - 1], root);
    if i == n - 1 {
        lemma_add_fetch(prev, artifact_task(libs[i].downloads.artifact.unwrap(), root), path);
    } else {
        lemma_library_fetched(start, libs, st, root, natives, os, (n - 1) as nat, i);
        if libs[n - 1].downloads.artifact is Some {
            lemma_add_fetch(prev, artifact_task(libs[n - 1].downloads.artifact.unwrap(), root), path);
        }
    }
    lemma_native_tasks_unzip(libs[n - 1], os, natives);
    lemma_fetches_natives(s2, native_tasks(libs[n - 1], os, natives), path);
}

proof fn lemma_with_assets(
    start: Seq<TaskView>,
    objs: Seq<(String, AssetObject)>,
    present: Seq<bool>,
    legacy: bool,
    paths: Paths,
    n: nat,
    p: Seq<char>,
)
    requires
        n <= objs.len(),
        n <= present.len(),
    ensures
        fetch_paths_distinct(start) ==> fetch_paths_distinct(with_assets(start, objs, present, legacy, paths, n)),
        fetches_to(start, p) ==> fetches_to(with_assets(start, objs, present, legacy, paths, n), p),
    decreases n,
{
    if n > 0 {
        let prev = with_assets(start, objs, present, legacy, paths, (n - 1) as nat);
        lemma_with_assets(start, objs, present, legacy, paths, (n - 1) as nat, p);
        lemma_add_fetch(prev, asset_task(objs[n - 1], legacy, paths), p);
    }
}

proof fn lemma_asset_fetched(
    start: Seq<TaskView>,
    objs: Seq<(String, AssetObject)>,
    present: Seq<bool>,
    legacy: bool,
    paths: Paths,
    n: nat,
    i: int,
)
    requires
        0 <= i < n <= objs.len(),
        n <= present.len(),
        !present[i],
    ensures
        fetches_to(
            with_assets(start, objs, present, legacy, paths, n),
            asset_path(objs[i].0@, objs[i].1.hash@, legacy, paths),
        ),
    decreases n,
{
    let path = asset_path(objs[i].0@, objs[i].1.hash@, legacy, paths);
    let prev = with_assets(start, objs, present, legacy, paths, (n - 1) as nat);
    if i == n - 1 {
        lemma_add_fetch(prev, asset_task(objs[i], legacy, paths), path);
    } else {
        lemma_asset_fetched(start, objs, present, legacy, paths, (n - 1) as nat, i);
        lemma_add_fetch(prev, asset_task(objs[n - 1], legacy, paths), path);
    }
}

/// Every destination that is absent (or, for the client jar and the library
/// artifacts, fails verification) is fetched by the plan, and no two fetches
/// of the plan share a destination: each such destination is planned exactly once.
pub proof fn lemma_absent_planned_once(
    id: Seq<char>,
    meta: Meta,
    assets: Assets,
    paths: Paths,
    os: Os,
    local: LocalFiles,
)
    requires
        local.libraries@.len() == meta.libraries@.len(),
        local.assets_present@.len() == assets.objects@.len(),
    ensures
        fetch_paths_distinct(planned(id, meta, assets, paths, os, local)),
        needs_download(local.client) ==> fetches_to(
            planned(id, meta, assets, paths, os, local),
            client_jar_path(paths.libraries@, id),
        ),
        forall|i: int|
            0 <= i < meta.libraries@.len() && (#[trigger] meta.libraries@[i]).downloads.artifact is Some
                && needs_download(local.libraries@[i]) ==> fetches_to(
                planned(id, meta, assets, paths, os, local),
                library_path(paths.libraries@, meta.libraries@[i].downloads.artifact.unwrap()),
            ),
        forall|i: int|
            0 <= i < assets.objects@.len() && !local.assets_present@[i] ==> fetches_to(
                planned(id, meta, assets, paths, os, local),
                asset_path(
                    (#[trigger] assets.objects@[i]).0@,
                    assets.objects@[i].1.hash@,
                    is_legacy(meta.asset_index.id@),
                    paths,
                ),
            ),
{
    let libs = meta.libraries@;
    let objs = assets.objects@;
    let legacy = is_legacy(meta.asset_index.id@);
    let c = client_tasks(id, meta, local.client, paths);
    let l = with_libraries(c, libs, local.libraries@, paths.libraries@, paths.natives@, os, libs.len());
    let jar = client_jar_path(paths.libraries@, id);
    lemma_with_libraries(c, libs, local.libraries@, paths.libraries@, paths.natives@, os, libs.len(), jar);
    lemma_with_assets(l, objs, local.assets_present@, legacy, paths, objs.len(), jar);
    if needs_download(local.client) {
        assert(c[0] == client_task(id, meta, paths));
        assert(fetches_to(c, jar));
    }
    assert forall|i: int|
        0 <= i < libs.len() && (#[trigger] libs[i]).downloads.artifact is Some && needs_download(
            local.libraries@[i],
        ) implies fetches_to(
        planned(id, meta, assets, paths, os, local),
        library_path(paths.libraries@, libs[i].downloads.artifact.unwrap()),
    ) by {
        let path = library_path(paths.libraries@, libs[i].downloads.artifact.unwrap());
        lemma_library_fetched(c, libs, local.libraries@, paths.libraries@, paths.natives@, os, libs.len(), i);
        lemma_with_assets(l, objs, local.assets_present@, legacy, paths, objs.len(), path);
    }
    assert forall|i: int| 0 <= i < objs.len() && !local.assets_present@[i] implies fetches_to(
        planned(id, meta, assets, paths, os, local),
        asset_path((#[trigger] objs[i]).0@, objs[i].1.hash@, legacy, paths),
    ) by {
        lemma_asset_fetched(l, objs, local.assets_present@, legacy, paths, objs.len(), i);
    }
}

proof fn lemma_installed_libraries(
    start: Seq<TaskView>,
    libs: Seq<Library>,
    st: Seq<FileStatus>,
    root: Seq<char>,
    natives: Seq<char>,
    os: Os,
    n: nat,
)
    requires
        n <= libs.len(),
        n <= st.len(),
        forall|i: int| 0 <= i < st.len() ==> #[trigger] st[i] == FileStatus::Valid,
    ensures
        (forall|k: int| 0 <= k < start.len() ==> (#[trigger] start[k]).unzip) ==> (forall|k: int|
            0 <= k < with_libraries(start, libs, st, root, natives, os, n).len() ==> (#[trigger] with_libraries(
                start,
                libs,
                st,
                root,
                natives,
                os,
                n,
            )[k]).unzip),
        (forall|i: int| 0 <= i < libs.len() ==> native_key(#[trigger] libs[i], os) is None) ==> with_libraries(
            start,
            libs,
            st,
            root,
            natives,
            os,
            n,
        ) == start,
    decreases n,
{
    if n > 0 {
        let prev = with_libraries(start, libs, st, root, natives, os, (n - 1) as nat);
        lemma_installed_libraries(start, libs, st, root, natives, os, (n - 1) as nat);
        assert(st[n - 1] == FileStatus::Valid);
        assert(with_artifact(prev, libs[n - 1], st[n - 1], root) == prev);
        lemma_native_tasks_unzip(libs[n - 1], os, natives);
        lemma_append_natives(prev, native_tasks(libs[n - 1], os, natives));
        if forall|i: int| 0 <= i < libs.len() ==> native_key(#[trigger] libs[i], os) is None {
            assert(native_key(libs[n - 1], os) is None);
            assert(prev + native_tasks(libs[n - 1], os, natives) =~= prev);
        }
    }
}

proof fn lemma_present_assets(
    start: Seq<TaskView>,
    objs: Seq<(String, AssetObject)>,
    present: Seq<bool>,
    legacy: bool,
    paths: Paths,
    n: nat,
)
    requires
        n <= present.len(),
        forall|i: int| 0 <= i < present.len() ==> #[trigger] present[i],
    ensures
        with_assets(start, objs, present, legacy, paths, n) == start,
    decreases n,
{
    if n > 0 {
        lemma_present_assets(start, objs, present, legacy, paths, (n - 1) as nat);
    }
}

/// Planning again over an installation whose files are all present and valid
/// fetches nothing in place: only native archives, which are always extracted
/// anew, remain; and where no library has a native archive for `os`, the plan
/// is empty.
pub proof fn lemma_installed_plans_no_fetch(
    id: Seq<char>,
    meta: Meta,
    assets: Assets,
    paths: Paths,
    os: Os,
    local: LocalFiles,
)
    requires
        local.libraries@.len() == meta.libraries@.len(),
        local.assets_present@.len() == assets.objects@.len(),
        local.client == FileStatus::Valid,
        forall|i: int| 0 <= i < local.libraries@.len() ==> #[trigger] local.libraries@[i] == FileStatus::Valid,
        forall|i: int| 0 <= i < local.assets_present@.len() ==> #[trigger] local.assets_present@[i],
    ensures
        forall|j: int|
            0 <= j < planned(id, meta, assets, paths, os, local).len() ==> (#[trigger] planned(
                id,
                meta,
                assets,
                paths,
                os,
                local,
            )[j]).unzip,
        (forall|i: int| 0 <= i < meta.libraries@.len() ==> native_key(#[trigger] meta.libraries@[i], os) is None)
            ==> planned(id, meta, assets, paths, os, local).len() == 0,
{
    let c = client_tasks(id, meta, local.client, paths);
    assert(c =~= Seq::<TaskView>::empty());
    let l = with_libraries(
        c,
        meta.libraries@,
        local.libraries@,
        paths.libraries@,
        paths.natives@,
        os,
        meta.libraries@.len(),
    );
    lemma_installed_libraries(
        c,
        meta.libraries@,
        local.libraries@,
        paths.libraries@,
        paths.natives@,
        os,
        meta.libraries@.len(),
    );
    lemma_present_assets(
        l,
        assets.objects@,
        local.assets_present@,
        is_legacy(meta.asset_index.id@),
        paths,
        assets.objects@.len(),
    );
}

/// Asset objects of the "legacy" index are fetched to `<instance>/resources/<key>`;
/// those of any index other than "legacy" and "pre-1.6" to
/// `<assets>/objects/<first two digest characters>/<digest>`.
pub proof fn lemma_asset_layout(id: Seq<char>, meta: Meta, assets: Assets, paths: Paths, os: Os, local: LocalFiles)
    requires
        local.libraries@.len() == meta.libraries@.len(),
        local.assets_present@.len() == assets.objects@.len(),
    ensures
        forall|i: int|
            0 <= i < assets.objects@.len() && !local.assets_present@[i] && meta.asset_index.id@ == "legacy"@
                ==> fetches_to(
                planned(id, meta, assets, paths, os, local),
                paths.instance@ + "/resources/"@ + (#[trigger] assets.objects@[i]).0@,
            ),
        forall|i: int|
            0 <= i < assets.objects@.len() && !local.assets_present@[i] && !is_legacy(meta.asset_index.id@)
                ==> fetches_to(
                planned(id, meta, assets, paths, os, local),
                paths.assets@ + "/objects/"@ + (#[trigger] assets.objects@[i]).1.hash@.subrange(0, 2) + "/"@
                    + assets.objects@[i].1.hash@,
            ),
{
    lemma_absent_planned_once(id, meta, assets, paths, os, local);
}

} // verus!
