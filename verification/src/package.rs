//! Packages and import resolution over a workspace snapshot.
//!
//! The resolver works against a `Workspace`: a snapshot listing the
//! directories and files the build can see, each directory with the state of
//! its `package.alta.toml` manifest. The driver fills the snapshot; every
//! decision over it is verified here.

use vstd::prelude::*;
use vstd::string::StringExecFns;

use crate::paths::chroot_norm;
use crate::paths::clone_path;
use crate::paths::join_path;
use crate::paths::join_seg;
use crate::paths::parent_of;
use crate::paths::path_eq;
use crate::paths::path_view;
use crate::paths::resolve_chrooted;
use crate::paths::seg_is;
use crate::strutil::push_char;

verus! {

/// What a package target produces.
pub enum TargetKind {
    Binary,
    Library,
}

/// The mathematical value of a target.
pub ghost struct TargetView {
    pub name: Seq<char>,
    pub main: Seq<char>,
    pub kind: TargetKind,
}

/// One buildable target of a package.
pub struct Target {
    pub name: String,
    pub main: String,
    pub kind: TargetKind,
}

impl View for Target {
    type V = TargetView;

    open spec fn view(&self) -> TargetView {
        TargetView { name: self.name@, main: self.main@, kind: self.kind }
    }
}

impl DeepView for Target {
    type V = TargetView;

    open spec fn deep_view(&self) -> TargetView {
        self.view()
    }
}

/// The mathematical value of a package's information.
pub ghost struct InfoView {
    pub name: Seq<char>,
    pub version: Seq<char>,
    pub targets: Seq<TargetView>,
}

/// A package's information: its name, version and targets.
pub struct Info {
    pub name: String,
    pub version: String,
    pub targets: Vec<Target>,
}

impl View for Info {
    type V = InfoView;

    open spec fn view(&self) -> InfoView {
        InfoView {
            name: self.name@,
            version: self.version@,
            targets: self.targets.deep_view(),
        }
    }
}

impl Info {
    /// A blank package: empty name, version `0.0.0`, no targets.
    pub fn new() -> (r: Info)
        ensures
            r@.name == ""@,
            r@.version == "0.0.0"@,
            r@.targets == Seq::<TargetView>::empty(),
    {
        let r = Info { name: String::new(), version: "0.0.0".to_owned(), targets: Vec::new() };
        proof {
            reveal_strlit("");
            assert(r.name@ =~= ""@);
            assert(r.targets.deep_view() =~= Seq::<TargetView>::empty());
        }
        r
    }
}

/// The state of a directory's `package.alta.toml`.
pub enum ManifestState {
    /// No manifest file is present.
    Missing,
    /// A manifest file is present but does not parse.
    Invalid,
    /// A parsed manifest.
    Parsed(Info),
}

/// The mathematical value of a manifest state.
pub ghost enum ManifestStateView {
    Missing,
    Invalid,
    Parsed(InfoView),
}

impl View for ManifestState {
    type V = ManifestStateView;

    open spec fn view(&self) -> ManifestStateView {
        match self {
            ManifestState::Missing => ManifestStateView::Missing,
            ManifestState::Invalid => ManifestStateView::Invalid,
            ManifestState::Parsed(i) => ManifestStateView::Parsed(i@),
        }
    }
}

/// A directory the build can see, with its manifest state.
pub struct WsDir {
    pub path: Vec<String>,
    pub manifest: ManifestState,
}

/// The mathematical value of a workspace directory.
pub ghost struct WsDirView {
    pub path: Seq<Seq<char>>,
    pub manifest: ManifestStateView,
}

impl View for WsDir {
    type V = WsDirView;

    open spec fn view(&self) -> WsDirView {
        WsDirView { path: self.path.deep_view(), manifest: self.manifest@ }
    }
}

impl DeepView for WsDir {
    type V = WsDirView;

    open spec fn deep_view(&self) -> WsDirView {
        self.view()
    }
}

/// A file the build can see: its path and its text, or `None` when reading
/// it fails.
pub struct WsFile {
    pub path: Vec<String>,
    pub contents: Option<String>,
}

/// The mathematical value of a workspace file.
pub ghost struct WsFileView {
    pub path: Seq<Seq<char>>,
    pub contents: Option<Seq<char>>,
}

impl View for WsFile {
    type V = WsFileView;

    open spec fn view(&self) -> WsFileView {
        WsFileView {
            path: self.path.deep_view(),
            contents: match self.contents {
                Some(c) => Some(c@),
                None => None,
            },
        }
    }
}

impl DeepView for WsFile {
    type V = WsFileView;

    open spec fn deep_view(&self) -> WsFileView {
        self.view()
    }
}

/// A snapshot of what the build can see on disk.
pub struct Workspace {
    pub dirs: Vec<WsDir>,
    pub files: Vec<WsFile>,
}

/// The mathematical value of a workspace.
pub ghost struct WorkspaceView {
    pub dirs: Seq<WsDirView>,
    pub files: Seq<WsFileView>,
}

impl View for Workspace {
    type V = WorkspaceView;

    open spec fn view(&self) -> WorkspaceView {
        WorkspaceView { dirs: self.dirs.deep_view(), files: self.files.deep_view() }
    }
}

/// The manifest state of the first directory entry at `p`, if `p` is a
/// directory the workspace knows.
pub open spec fn find_dir(dirs: Seq<WsDirView>, p: Seq<Seq<char>>) -> Option<ManifestStateView>
    decreases dirs.len(),
{
    if dirs.len() == 0 {
        None
    } else if dirs.first().path == p {
        Some(dirs.first().manifest)
    } else {
        find_dir(dirs.drop_first(), p)
    }
}

/// The contents slot of the first file entry at `p`, if `p` is a file the
/// workspace knows.
pub open spec fn find_file(files: Seq<WsFileView>, p: Seq<Seq<char>>) -> Option<Option<Seq<char>>>
    decreases files.len(),
{
    if files.len() == 0 {
        None
    } else if files.first().path == p {
        Some(files.first().contents)
    } else {
        find_file(files.drop_first(), p)
    }
}

impl Workspace {
    /// An empty snapshot.
    pub fn new() -> (r: Workspace)
        ensures
            r@.dirs == Seq::<WsDirView>::empty(),
            r@.files == Seq::<WsFileView>::empty(),
    {
        let r = Workspace { dirs: Vec::new(), files: Vec::new() };
        proof {
            assert(r.dirs.deep_view() =~= Seq::<WsDirView>::empty());
            assert(r.files.deep_view() =~= Seq::<WsFileView>::empty());
        }
        r
    }

    /// Record a directory and its manifest state.
    pub fn add_dir(&mut self, path: Vec<String>, manifest: ManifestState)
        ensures
            final(self)@.dirs == old(self)@.dirs.push(
                (WsDirView { path: path.deep_view(), manifest: manifest@ }),
            ),
            final(self)@.files == old(self)@.files,
    {
        let ghost pre = self.dirs.deep_view();
        let d = WsDir { path, manifest };
        let ghost dv = d@;
        self.dirs.push(d);
        proof {
            assert(self.dirs.deep_view().len() == pre.len() + 1);
            assert(forall|j: int| 0 <= j < pre.len() ==> self.dirs.deep_view()[j] == pre[j]);
            assert(self.dirs.deep_view()[pre.len() as int] == dv);
            assert(self.dirs.deep_view() =~= pre.push(dv));
        }
    }

    /// Record a file and its contents (`None`: the file cannot be read).
    pub fn add_file(&mut self, path: Vec<String>, contents: Option<String>)
        ensures
            final(self)@.files == old(self)@.files.push(
                (WsFileView {
                    path: path.deep_view(),
                    contents: match contents {
                        Some(c) => Some(c@),
                        None => None,
                    },
                }),
            ),
            final(self)@.dirs == old(self)@.dirs,
    {
        let ghost pre = self.files.deep_view();
        let f = WsFile { path, contents };
        let ghost fv = f@;
        self.files.push(f);
        proof {
            assert(self.files.deep_view().len() == pre.len() + 1);
            assert(forall|j: int| 0 <= j < pre.len() ==> self.files.deep_view()[j] == pre[j]);
            assert(self.files.deep_view()[pre.len() as int] == fv);
            assert(self.files.deep_view() =~= pre.push(fv));
        }
    }

    /// Look up the manifest state of directory `p`.
    pub fn dir_manifest<'a>(&'a self, p: &Vec<String>) -> (r: Option<&'a ManifestState>)
        ensures
            match r {
                Some(m) => find_dir(self@.dirs, path_view(p)) == Some(m@),
                None => find_dir(self@.dirs, path_view(p)) is None,
            },
    {
        let mut i: usize = 0;
        proof {
            assert(self@.dirs.skip(0) =~= self@.dirs);
        }
        while i < self.dirs.len()
            invariant
                i <= self.dirs.len(),
                find_dir(self@.dirs, path_view(p)) == find_dir(
                    self@.dirs.skip(i as int),
                    path_view(p),
                ),
            decreases self.dirs.len() - i,
        {
            proof {
                assert(self@.dirs.skip(i as int).first() == self@.dirs[i as int]);
                assert(self@.dirs.skip(i as int).drop_first() =~= self@.dirs.skip(i + 1));
            }
            if path_eq(&self.dirs[i].path, p) {
                return Some(&self.dirs[i].manifest);
            }
            i = i + 1;
        }
        proof {
            assert(self@.dirs.skip(self@.dirs.len() as int) =~= Seq::<WsDirView>::empty());
        }
        None
    }

    /// Whether `p` is a directory the workspace knows.
    pub fn is_dir(&self, p: &Vec<String>) -> (r: bool)
        ensures
            r == (find_dir(self@.dirs, path_view(p)) is Some),
    {
        match self.dir_manifest(p) {
            Some(_) => true,
            None => false,
        }
    }

    /// Look up the contents slot of file `p`.
    pub fn file_contents<'a>(&'a self, p: &Vec<String>) -> (r: Option<&'a Option<String>>)
        ensures
            match r {
                Some(c) => find_file(self@.files, path_view(p)) == Some(
                    match c {
                        Some(s) => Some(s@),
                        None => None::<Seq<char>>,
                    },
                ),
                None => find_file(self@.files, path_view(p)) is None,
            },
    {
        let mut i: usize = 0;
        proof {
            assert(self@.files.skip(0) =~= self@.files);
        }
        while i < self.files.len()
            invariant
                i <= self.files.len(),
                find_file(self@.files, path_view(p)) == find_file(
                    self@.files.skip(i as int),
                    path_view(p),
                ),
            decreases self.files.len() - i,
        {
            proof {
                assert(self@.files.skip(i as int).first() == self@.files[i as int]);
                assert(self@.files.skip(i as int).drop_first() =~= self@.files.skip(i + 1));
            }
            if path_eq(&self.files[i].path, p) {
                return Some(&self.files[i].contents);
            }
            i = i + 1;
        }
        proof {
            assert(self@.files.skip(self@.files.len() as int) =~= Seq::<WsFileView>::empty());
        }
        None
    }

    /// Whether `p` is a file the workspace knows.
    pub fn is_file(&self, p: &Vec<String>) -> (r: bool)
        ensures
            r == (find_file(self@.files, path_view(p)) is Some),
    {
        match self.file_contents(p) {
            Some(_) => true,
            None => false,
        }
    }
}

/// Whether directory `p` holds a manifest file (valid or not).
pub open spec fn has_manifest(w: WorkspaceView, p: Seq<Seq<char>>) -> bool {
    match find_dir(w.dirs, p) {
        Some(ManifestStateView::Missing) => false,
        Some(_) => true,
        None => false,
    }
}

/// The nearest ancestor of `p` (starting at `p` itself) holding a manifest.
pub open spec fn root_from(w: WorkspaceView, p: Seq<Seq<char>>) -> Option<Seq<Seq<char>>>
    decreases p.len(),
{
    if has_manifest(w, p) {
        Some(p)
    } else if p.len() == 0 {
        None
    } else {
        root_from(w, p.drop_last())
    }
}

/// The package root of the file at `path`: the nearest ancestor directory of
/// its parent that holds a `package.alta.toml`.
pub open spec fn spec_find_package_root(w: WorkspaceView, path: Seq<Seq<char>>) -> Option<
    Seq<Seq<char>>,
> {
    root_from(w, if path.len() == 0 { path } else { path.drop_last() })
}

/// Whether directory `p` holds a manifest file (executable form).
fn exec_has_manifest(ws: &Workspace, p: &Vec<String>) -> (r: bool)
    ensures
        r == has_manifest(ws@, path_view(p)),
{
    match ws.dir_manifest(p) {
        Some(m) => match m {
            ManifestState::Missing => false,
            _ => true,
        },
        None => false,
    }
}

/// Find the package root of the file at `path`: walk up from its parent
/// directory to the first directory holding a `package.alta.toml`.
pub fn find_package_root(ws: &Workspace, path: &Vec<String>) -> (r: Option<Vec<String>>)
    ensures
        match r {
            Some(p) => spec_find_package_root(ws@, path_view(path)) == Some(path_view(&p)),
            None => spec_find_package_root(ws@, path_view(path)) is None,
        },
{
    let mut pkg = parent_of(path);
    loop
        invariant
            root_from(ws@, path_view(&pkg)) == spec_find_package_root(ws@, path_view(path)),
        decreases path_view(&pkg).len(),
    {
        if exec_has_manifest(ws, &pkg) {
            return Some(pkg);
        }
        if pkg.len() == 0 {
            return None;
        }
        let ghost pre = path_view(&pkg);
        pkg.pop();
        proof {
            assert(forall|j: int| 0 <= j < path_view(&pkg).len() ==> path_view(&pkg)[j] == pre[j]);
            assert(path_view(&pkg) =~= pre.drop_last());
        }
    }
}

/// The parsed manifest of directory `pkg`, if one is present and valid.
pub fn try_pkg_info<'a>(ws: &'a Workspace, pkg: &Vec<String>) -> (r: Option<&'a Info>)
    ensures
        match r {
            Some(i) => find_dir(ws@.dirs, path_view(pkg)) == Some(ManifestStateView::Parsed(i@)),
            None => !(find_dir(ws@.dirs, path_view(pkg)) matches Some(ManifestStateView::Parsed(
                _,
            ))),
        },
{
    match ws.dir_manifest(pkg) {
        Some(m) => match m {
            ManifestState::Parsed(i) => Some(i),
            _ => None,
        },
        None => None,
    }
}

/// Whether directory `p` has a parsed manifest naming the package `name`.
pub open spec fn manifest_names(w: WorkspaceView, p: Seq<Seq<char>>, name: Seq<char>) -> bool {
    match find_dir(w.dirs, p) {
        Some(ManifestStateView::Parsed(i)) => i.name == name,
        _ => false,
    }
}

/// Whether `d` is a direct child of `base`, is not a vendor directory, is
/// not the skipped directory, and has a parsed manifest naming `name`.
pub open spec fn dir_matches(
    d: WsDirView,
    base: Seq<Seq<char>>,
    name: Seq<char>,
    skip: Option<Seq<Seq<char>>>,
) -> bool {
    d.path.len() == base.len() + 1 && d.path.take(base.len() as int) == base && d.path.last()
        != "alta-vendor"@ && (match skip {
        Some(s) => d.path != s,
        None => true,
    }) && (match d.manifest {
        ManifestStateView::Parsed(i) => i.name == name,
        _ => false,
    })
}

/// The first directory among `dirs` that `dir_matches` accepts.
pub open spec fn scan_children(
    dirs: Seq<WsDirView>,
    base: Seq<Seq<char>>,
    name: Seq<char>,
    skip: Option<Seq<Seq<char>>>,
) -> Option<Seq<Seq<char>>>
    decreases dirs.len(),
{
    if dirs.len() == 0 {
        None
    } else if dir_matches(dirs.first(), base, name, skip) {
        Some(dirs.first().path)
    } else {
        scan_children(dirs.drop_first(), base, name, skip)
    }
}

/// Where `find_package` finds the package `name`, searching from
/// `start`: `start` itself, then its children, then its vendored packages,
/// then its siblings, in the workspace's listing order.
pub open spec fn spec_find_package(w: WorkspaceView, name: Seq<char>, start: Seq<Seq<char>>) -> Option<
    Seq<Seq<char>>,
> {
    if manifest_names(w, start, name) {
        Some(start)
    } else {
        match scan_children(w.dirs, start, name, None) {
            Some(p) => Some(p),
            None => match scan_children(w.dirs, start.push("alta-vendor"@), name, None) {
                Some(p) => Some(p),
                None => if start.len() == 0 {
                    None
                } else {
                    scan_children(w.dirs, start.drop_last(), name, Some(start))
                },
            },
        }
    }
}

fn exec_dir_matches(
    d: &WsDir,
    base: &Vec<String>,
    name: &String,
    skip: Option<&Vec<String>>,
) -> (r: bool)
    ensures
        r == dir_matches(
            d@,
            path_view(base),
            name@,
            match skip {
                Some(s) => Some(path_view(s)),
                None => None,
            },
        ),
{
    if d.path.len() == 0 || d.path.len() - 1 != base.len() {
        return false;
    }
    let mut i: usize = 0;
    while i < base.len()
        invariant
            i <= base.len(),
            base.len() + 1 == d.path.deep_view().len(),
            forall|j: int| 0 <= j < i ==> d.path.deep_view()[j] == path_view(base)[j],
        decreases base.len() - i,
    {
        if !d.path[i].eq(&base[i]) {
            proof {
                assert(d.path.deep_view()[i as int] != path_view(base)[i as int]);
                assert(d.path.deep_view().take(base.len() as int) != path_view(base));
            }
            return false;
        }
        i = i + 1;
    }
    proof {
        assert(d.path.deep_view().take(base.len() as int) =~= path_view(base));
    }
    if seg_is(&d.path[d.path.len() - 1], "alta-vendor") {
        return false;
    }
    match skip {
        Some(s) => {
            if path_eq(&d.path, s) {
                return false;
            }
        },
        None => {},
    }
    match &d.manifest {
        ManifestState::Parsed(info) => info.name.eq(name),
        _ => false,
    }
}

fn exec_scan_children(
    ws: &Workspace,
    base: &Vec<String>,
    name: &String,
    skip: Option<&Vec<String>>,
) -> (r: Option<Vec<String>>)
    ensures
        ({
            let sk = match skip {
                Some(s) => Some(path_view(s)),
                None => None,
            };
            match r {
                Some(p) => scan_children(ws@.dirs, path_view(base), name@, sk) == Some(
                    path_view(&p),
                ),
                None => scan_children(ws@.dirs, path_view(base), name@, sk) is None,
            }
        }),
{
    let ghost sk = match skip {
        Some(s) => Some(path_view(s)),
        None => None,
    };
    let mut i: usize = 0;
    proof {
        assert(ws@.dirs.skip(0) =~= ws@.dirs);
    }
    while i < ws.dirs.len()
        invariant
            i <= ws.dirs.len(),
            sk == (match skip {
                Some(s) => Some(path_view(s)),
                None => None,
            }),
            scan_children(ws@.dirs, path_view(base), name@, sk) == scan_children(
                ws@.dirs.skip(i as int),
                path_view(base),
                name@,
                sk,
            ),
        decreases ws.dirs.len() - i,
    {
        proof {
            assert(ws@.dirs.skip(i as int).first() == ws@.dirs[i as int]);
            assert(ws@.dirs.skip(i as int).drop_first() =~= ws@.dirs.skip(i + 1));
        }
        if exec_dir_matches(&ws.dirs[i], base, name, skip) {
            return Some(clone_path(&ws.dirs[i].path));
        }
        i = i + 1;
    }
    proof {
        assert(ws@.dirs.skip(ws@.dirs.len() as int) =~= Seq::<WsDirView>::empty());
    }
    None
}

/// Find the directory of the package named `pkg_name`: `starting_from`
/// itself, then its child directories, then its vendored packages under
/// `alta-vendor`, then its sibling directories, in the workspace's order.
pub fn find_package(ws: &Workspace, pkg_name: &str, starting_from: &Vec<String>) -> (r: Option<
    Vec<String>,
>)
    ensures
        match r {
            Some(p) => spec_find_package(ws@, pkg_name@, path_view(starting_from)) == Some(
                path_view(&p),
            ),
            None => spec_find_package(ws@, pkg_name@, path_view(starting_from)) is None,
        },
{
    let name: String = pkg_name.to_owned();
    match try_pkg_info(ws, starting_from) {
        Some(info) => {
            if info.name.eq(&name) {
                return Some(clone_path(starting_from));
            }
        },
        None => {},
    }
    match exec_scan_children(ws, starting_from, &name, None) {
        Some(p) => {
            return Some(p);
        },
        None => {},
    }
    let vendor = join_seg(starting_from, "alta-vendor".to_owned());
    match exec_scan_children(ws, &vendor, &name, None) {
        Some(p) => {
            return Some(p);
        },
        None => {},
    }
    if starting_from.len() == 0 {
        return None;
    }
    let par = parent_of(starting_from);
    exec_scan_children(ws, &par, &name, Some(starting_from))
}

/// The pieces of `s` between slashes; a leading slash yields a leading empty
/// piece.
pub open spec fn split_slash(s: Seq<char>) -> Seq<Seq<char>>
    decreases s.len(),
{
    if s.len() == 0 {
        seq![Seq::<char>::empty()]
    } else {
        let prev = split_slash(s.drop_last());
        if s.last() == '/' {
            prev.push(Seq::empty())
        } else {
            prev.update(prev.len() - 1, prev.last().push(s.last()))
        }
    }
}

fn exec_split_slash(s: &str) -> (r: Vec<String>)
    ensures
        r.deep_view() == split_slash(s@),
        r.len() >= 1,
{
    let cs = crate::strutil::str_to_chars(s);
    let mut finished: Vec<String> = Vec::new();
    let mut cur = String::new();
    let mut i: usize = 0;
    while i < cs.len()
        invariant
            i <= cs.len(),
            cs@ == s@,
            split_slash(cs@.take(i as int)) == finished.deep_view().push(cur@),
        decreases cs.len() - i,
    {
        proof {
            assert(cs@.take(i + 1).drop_last() =~= cs@.take(i as int));
            assert(cs@.take(i + 1).last() == cs@[i as int]);
        }
        let c = cs[i];
        if c == '/' {
            let ghost fv = finished.deep_view();
            let ghost cv = cur@;
            finished.push(cur);
            cur = String::new();
            proof {
                assert(finished.deep_view().len() == fv.len() + 1);
                assert(forall|m: int| 0 <= m < fv.len() ==> finished.deep_view()[m] == fv[m]);
                assert(finished.deep_view()[fv.len() as int] == cv);
                assert(finished.deep_view() =~= fv.push(cv));
                assert(finished.deep_view().push(cur@) =~= split_slash(cs@.take(i + 1)));
            }
        } else {
            push_char(&mut cur, c);
            proof {
                assert(finished.deep_view().push(cur@) =~= split_slash(cs@.take(i + 1)));
            }
        }
        i = i + 1;
    }
    proof {
        assert(cs@.take(cs@.len() as int) =~= cs@);
    }
    let ghost fv = finished.deep_view();
    let ghost cv = cur@;
    finished.push(cur);
    proof {
        assert(finished.deep_view().len() == fv.len() + 1);
        assert(forall|m: int| 0 <= m < fv.len() ==> finished.deep_view()[m] == fv[m]);
        assert(finished.deep_view()[fv.len() as int] == cv);
        assert(finished.deep_view() =~= fv.push(cv));
    }
    finished
}

/// The position of the last dot of `seg` that is not its first character, or
/// `-1`: the start of the extension that `with_ext_alta` replaces.
pub open spec fn last_dot(seg: Seq<char>) -> int
    decreases seg.len(),
{
    if seg.len() <= 1 {
        -1
    } else if seg.last() == '.' {
        seg.len() - 1
    } else {
        last_dot(seg.drop_last())
    }
}

/// `seg` with its extension (if any) replaced by `alta`.
pub open spec fn with_ext_alta(seg: Seq<char>) -> Seq<char> {
    let d = last_dot(seg);
    (if d == -1 {
        seg
    } else {
        seg.take(d)
    }) + ".alta"@
}

fn exec_with_ext_alta(seg: &String) -> (r: String)
    ensures
        r@ == with_ext_alta(seg@),
{
    let cs = crate::strutil::str_to_chars(seg.as_str());
    let mut k = cs.len();
    proof {
        assert(cs@.take(cs@.len() as int) =~= cs@);
    }
    while k > 1 && cs[k - 1] != '.'
        invariant
            k <= cs.len(),
            cs@ == seg@,
            last_dot(cs@.take(k as int)) == last_dot(cs@),
        decreases k,
    {
        proof {
            assert(cs@.take(k as int).drop_last() =~= cs@.take(k - 1));
            assert(cs@.take(k as int).last() == cs@[k - 1]);
        }
        k = k - 1;
    }
    proof {
        if k > 1 {
            assert(cs@.take(k as int).last() == cs@[k - 1]);
            assert(last_dot(cs@) == k - 1);
        } else {
            assert(last_dot(cs@) == -1);
        }
    }
    let mut r: String;
    if k > 1 {
        r = crate::strutil::chars_substring(&cs, 0, k - 1);
    } else {
        r = crate::strutil::chars_substring(&cs, 0, cs.len());
        proof {
            assert(cs@.subrange(0, cs@.len() as int) =~= cs@);
        }
    }
    r.append(".alta");
    r
}

/// The path `p` with its last segment's extension replaced by `alta`; an
/// empty path stays empty.
pub open spec fn with_ext_path(p: Seq<Seq<char>>) -> Seq<Seq<char>> {
    if p.len() == 0 {
        p
    } else {
        p.update(p.len() - 1, with_ext_alta(p.last()))
    }
}

fn exec_with_ext_path(p: &Vec<String>) -> (r: Vec<String>)
    ensures
        path_view(&r) == with_ext_path(path_view(p)),
{
    if p.len() == 0 {
        let r = clone_path(p);
        return r;
    }
    let par = parent_of(p);
    let e = exec_with_ext_alta(&p[p.len() - 1]);
    let r = join_seg(&par, e);
    proof {
        assert(path_view(&r) =~= with_ext_path(path_view(p)));
    }
    r
}

/// Whether the workspace knows `p` at all, as a directory or a file.
pub open spec fn exists_at(w: WorkspaceView, p: Seq<Seq<char>>) -> bool {
    find_dir(w.dirs, p) is Some || find_file(w.files, p) is Some
}

/// What a cleaned candidate path resolves to: a directory resolves to its
/// `main.alta` if that exists; a file resolves to itself; otherwise the path
/// with extension `alta` is tried.
pub open spec fn spec_handle_chrooted(w: WorkspaceView, chrooted: Seq<Seq<char>>) -> Option<
    Seq<Seq<char>>,
> {
    if exists_at(w, chrooted) {
        if find_dir(w.dirs, chrooted) is Some {
            if exists_at(w, chrooted.push("main.alta"@)) {
                Some(chrooted.push("main.alta"@))
            } else {
                None
            }
        } else {
            Some(chrooted)
        }
    } else {
        let e = with_ext_path(chrooted);
        if exists_at(w, e) {
            Some(e)
        } else {
            None
        }
    }
}

fn exec_exists_at(ws: &Workspace, p: &Vec<String>) -> (r: bool)
    ensures
        r == exists_at(ws@, path_view(p)),
{
    ws.is_dir(p) || ws.is_file(p)
}

fn exec_handle_chrooted(ws: &Workspace, chrooted: Vec<String>) -> (r: Option<Vec<String>>)
    ensures
        match r {
            Some(p) => spec_handle_chrooted(ws@, path_view(&chrooted)) == Some(path_view(&p)),
            None => spec_handle_chrooted(ws@, path_view(&chrooted)) is None,
        },
{
    if exec_exists_at(ws, &chrooted) {
        if ws.is_dir(&chrooted) {
            let m = join_seg(&chrooted, "main.alta".to_owned());
            if exec_exists_at(ws, &m) {
                Some(m)
            } else {
                None
            }
        } else {
            Some(chrooted)
        }
    } else {
        let e = exec_with_ext_path(&chrooted);
        if exec_exists_at(ws, &e) {
            Some(e)
        } else {
            None
        }
    }
}

/// What an import specifier resolves to. The specifier is read as a path:
/// one starting with `.` or `..` is resolved against the importing file's
/// directory; one starting with `/` against the package root; any other is
/// resolved inside the package its first piece names, found by
/// `find_package` from the importing package's root. The cleaned candidate
/// then goes through `spec_handle_chrooted`.
pub open spec fn spec_resolve_import(
    w: WorkspaceView,
    source: Seq<Seq<char>>,
    import: Seq<char>,
) -> Option<Seq<Seq<char>>> {
    match spec_find_package_root(w, source) {
        None => None,
        Some(src_pkg) => if import.len() == 0 {
            None
        } else {
            let comps = split_slash(import);
            let first = comps.first();
            if first == "."@ || first == ".."@ {
                let base = if source.len() == 0 {
                    src_pkg
                } else {
                    source.drop_last()
                };
                spec_handle_chrooted(w, base + chroot_norm(comps))
            } else if first == ""@ {
                spec_handle_chrooted(w, src_pkg + chroot_norm(comps))
            } else {
                match spec_find_package(w, first, src_pkg) {
                    None => None,
                    Some(pkg_path) => spec_handle_chrooted(
                        w,
                        pkg_path + chroot_norm(comps.drop_first()),
                    ),
                }
            }
        },
    }
}

/// Resolve the import specifier `import`, written in the file at
/// `source_path`, to the file it names.
pub fn resolve_import(ws: &Workspace, source_path: &Vec<String>, import: &str) -> (r: Option<
    Vec<String>,
>)
    ensures
        match r {
            Some(p) => spec_resolve_import(ws@, path_view(source_path), import@) == Some(
                path_view(&p),
            ),
            None => spec_resolve_import(ws@, path_view(source_path), import@) is None,
        },
{
    let src_pkg = match find_package_root(ws, source_path) {
        Some(x) => x,
        None => {
            return None;
        },
    };
    let cs = crate::strutil::str_to_chars(import);
    if cs.len() == 0 {
        return None;
    }
    let mut comps = exec_split_slash(import);
    if seg_is(&comps[0], ".") || seg_is(&comps[0], "..") {
        let base = if source_path.len() == 0 {
            src_pkg
        } else {
            parent_of(source_path)
        };
        let norm = resolve_chrooted(&comps);
        let cand = join_path(&base, &norm);
        exec_handle_chrooted(ws, cand)
    } else if seg_is(&comps[0], "") {
        let norm = resolve_chrooted(&comps);
        let cand = join_path(&src_pkg, &norm);
        exec_handle_chrooted(ws, cand)
    } else {
        let first = comps.remove(0);
        proof {
            assert(comps.deep_view() =~= split_slash(import@).drop_first());
        }
        let pkg_path = match find_package(ws, first.as_str(), &src_pkg) {
            Some(x) => x,
            None => {
                return None;
            },
        };
        let norm = resolve_chrooted(&comps);
        let cand = join_path(&pkg_path, &norm);
        exec_handle_chrooted(ws, cand)
    }
}

} // verus!
