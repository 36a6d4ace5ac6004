//! Path normalization and publish planning.
//!
//! A manifest declares its library and UI paths either absolutely or
//! relative to the directory the manifest was found in.  Publishing a plugin
//! means resolving both paths and planning a symlink under the served root,
//! at `base / id / fixed-name`, so the UI is reachable at a stable address.
//! The filesystem side effects of the plan — clearing the plugin's link
//! directory and creating the symlink — are carried out by the host binary;
//! this module computes and validates the plan.

use vstd::prelude::*;

use crate::config::PluginManagerConfig;
use crate::errors::PluginError;
use crate::manifest::PluginInfo;
use crate::manifest::PluginRes;

verus! {

/// What the filesystem reports about a resolved path.
#[derive(Debug, Clone, Copy, PartialEq, Eq, Structural)]
pub enum PathKind {
    /// Nothing exists at the path.
    Missing,
    /// A regular file exists at the path.
    File,
    /// Something exists at the path, but it is not a regular file.
    Other,
}

/// An absolute path, in the Unix convention used throughout the host.
pub open spec fn spec_is_absolute(p: Seq<char>) -> bool {
    p.len() > 0 && p[0] == '/'
}

/// `a` and `b` joined by a single separator.
pub open spec fn spec_join(a: Seq<char>, b: Seq<char>) -> Seq<char> {
    a + "/"@ + b
}

/// A declared path resolved against the manifest's directory: kept as is
/// when absolute, joined to the directory otherwise.
pub open spec fn spec_resolve(parent: Seq<char>, p: Seq<char>) -> Seq<char> {
    if spec_is_absolute(p) {
        p
    } else {
        spec_join(parent, p)
    }
}

/// The directory holding one plugin's published symlink.
pub open spec fn spec_link_dir(base: Seq<char>, id: Seq<char>) -> Seq<char> {
    spec_join(base, id)
}

/// The full path of one plugin's published symlink.
pub open spec fn spec_link_path(base: Seq<char>, id: Seq<char>, name: Seq<char>) -> Seq<char> {
    spec_join(spec_link_dir(base, id), name)
}

/// Whether `p` is absolute.
pub fn is_absolute(p: &str) -> (r: bool)
    ensures
        r == spec_is_absolute(p@),
{
    if p.unicode_len() == 0 {
        return false;
    }
    p.get_char(0) == '/'
}

/// Joins `a` and `b` with a single separator.
pub fn join_path(a: &str, b: &str) -> (r: String)
    ensures
        r@ == spec_join(a@, b@),
{
    let mut s = a.to_owned();
    s.append("/");
    s.append(b);
    s
}

/// Resolves a declared path against the manifest's directory.
pub fn resolve_path(parent: &str, p: &str) -> (r: String)
    ensures
        r@ == spec_resolve(parent@, p@),
{
    if is_absolute(p) {
        p.to_owned()
    } else {
        join_path(parent, p)
    }
}

/// Resolves a manifest's two declared paths against its directory,
/// returning `(library path, ui path)`.
pub fn resolve_res_paths(parent: &str, res: &PluginRes) -> (r: (String, String))
    ensures
        r.0@ == spec_resolve(parent@, res@.file),
        r.1@ == spec_resolve(parent@, res@.html),
{
    (resolve_path(parent, res.file.as_str()), resolve_path(parent, res.html.as_str()))
}

/// Resolves both declared paths and validates what the filesystem reported
/// about them: a resolved path that exists but is not a regular file fails
/// the load of this one plugin.
pub fn normalize_plugin_paths(parent: &str, res: &PluginRes, file_kind: PathKind, html_kind: PathKind) -> (r: Result<
    (String, String),
    PluginError,
>)
    ensures
        r is Err <==> file_kind is Other || html_kind is Other,
        r matches Err(e) ==> e is PathValidation,
        r matches Ok(p) ==> p.0@ == spec_resolve(parent@, res@.file) && p.1@ == spec_resolve(
            parent@,
            res@.html,
        ),
{
    if matches!(file_kind, PathKind::Other) || matches!(html_kind, PathKind::Other) {
        return Err(PluginError::PathValidation);
    }
    Ok(resolve_res_paths(parent, res))
}

/// The publish plan for one plugin: what the host must do on disk, and the
/// network-facing resource the registry will store.
#[derive(Debug)]
pub struct PublishPlan {
    /// The directory `base/id`; the host removes it recursively and
    /// recreates it empty, so no stale files linger from an earlier version.
    pub link_dir: String,
    /// The symlink's own path, `base/id/name`, inside `link_dir`.
    pub link_path: String,
    /// What the symlink points at: the plugin's resolved UI path.
    pub target: String,
    /// The published resource: the resolved library path, and the UI path
    /// rewritten to the symlink.
    pub net: PluginRes,
}

/// Computes the publish plan for one plugin: resolves the declared paths,
/// validates them, and places the symlink at the stable served path for
/// `id`.  Fails with a path-validation error exactly when a resolved path
/// exists but is not a regular file.
pub fn generate_res_net<C: PluginManagerConfig>(config: &C, id: &str, parent: &str, info: &PluginInfo, file_kind: PathKind, html_kind: PathKind) -> (r: Result<
    PublishPlan,
    PluginError,
>)
    ensures
        r is Err <==> file_kind is Other || html_kind is Other,
        r matches Err(e) ==> e is PathValidation,
        r matches Ok(plan) ==> {
            &&& plan.link_dir@ == spec_link_dir(config.spec_symlink_base_dir(), id@)
            &&& plan.link_path@ == spec_link_path(
                config.spec_symlink_base_dir(),
                id@,
                config.spec_web_file_name(),
            )
            &&& plan.target@ == spec_resolve(parent@, info@.res.html)
            &&& plan.net@.file == spec_resolve(parent@, info@.res.file)
            &&& plan.net@.html == plan.link_path@
        },
{
    let (file, html) = match normalize_plugin_paths(parent, &info.res, file_kind, html_kind) {
        Ok(p) => p,
        Err(e) => {
            return Err(e);
        }
    };
    let base = config.symlink_base_dir();
    let link_dir = join_path(base.as_str(), id);
    let name = config.web_file_name();
    let link_path = join_path(link_dir.as_str(), name.as_str());
    let net = PluginRes::new(file.as_str(), link_path.as_str());
    Ok(PublishPlan { link_dir, link_path, target: html, net })
}

/// Law: publishing is stable per id.  The symlink path is a function of the
/// served root, the id and the fixed file name alone — it never depends on
/// the plugin's UI target, so two publishes of the same id land on the same
/// link path — and the link lies strictly inside the directory the host
/// clears and recreates before linking, so a second publish leaves nothing
/// of the first behind.  (That the filesystem then shows the link pointing
/// at the second target is the host binary's side of the contract.)
pub proof fn lemma_symlink_replace(base: Seq<char>, id: Seq<char>, name: Seq<char>)
    ensures
        spec_link_path(base, id, name) == spec_join(spec_link_dir(base, id), name),
        crate::strings::spec_starts_with(
            spec_link_path(base, id, name),
            spec_link_dir(base, id) + "/"@,
        ),
{
    let dir = spec_link_dir(base, id);
    let full = spec_link_path(base, id, name);
    assert(full =~= (dir + "/"@) + name);
    assert(full.subrange(0, (dir + "/"@).len() as int) =~= dir + "/"@);
}

} // verus!
