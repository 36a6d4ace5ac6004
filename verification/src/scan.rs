//! Manifest discovery rules and batch collection.
//!
//! The host walks the scan directory; this module owns the walk's decisions
//! — descend into a directory unless its name is hidden, treat a file as a
//! manifest candidate by its extension — and turns the batch of read
//! candidate files into parsed manifests, skipping each malformed one
//! without failing the batch.

use vstd::prelude::*;

use crate::manifest::PluginInfo;
use crate::manifest::PluginInfoV;
use crate::parse::parse_manifest;
use crate::parse::spec_parse_manifest;
use crate::strings::ends_with;
use crate::strings::spec_ends_with;
use crate::strings::spec_starts_with;
use crate::strings::starts_with;

verus! {

/// A manifest candidate: a file named with the manifest extension and a
/// nonempty stem.
pub open spec fn spec_is_manifest_file(name: Seq<char>) -> bool {
    spec_ends_with(name, ".json"@) && name.len() > ".json"@.len()
}

/// A directory worth descending into: its name does not start with the
/// hidden-file marker.
pub open spec fn spec_should_descend(name: Seq<char>) -> bool {
    !spec_starts_with(name, "."@)
}

/// Whether a file of this name is a manifest candidate.
pub fn is_manifest_file(name: &str) -> (r: bool)
    ensures
        r == spec_is_manifest_file(name@),
{
    ends_with(name, ".json") && name.unicode_len() > ".json".unicode_len()
}

/// Whether the walk descends into a directory of this name.
pub fn should_descend(name: &str) -> (r: bool)
    ensures
        r == spec_should_descend(name@),
{
    !starts_with(name, ".")
}

/// The view of a collected `(directory, manifest)` batch.
pub open spec fn pairs_view(s: Seq<(String, PluginInfo)>) -> Seq<(Seq<char>, PluginInfoV)> {
    s.map_values(|p: (String, PluginInfo)| (p.0@, p.1@))
}

/// The manifests a batch of read files denotes: for each `(directory,
/// text)` whose text parses, the directory paired with the parsed manifest,
/// in batch order; malformed texts contribute nothing.
pub open spec fn spec_collect(files: Seq<(String, String)>) -> Seq<(Seq<char>, PluginInfoV)>
    decreases files.len(),
{
    if files.len() == 0 {
        Seq::empty()
    } else {
        spec_collect(files.drop_last()) + match spec_parse_manifest(files.last().1@) {
            Some(m) => seq![(files.last().0@, m)],
            None => Seq::<(Seq<char>, PluginInfoV)>::empty(),
        }
    }
}

/// Parses a batch of read candidate files.  One malformed manifest skips
/// only itself: the result holds exactly the pairs whose text parses, and
/// the call never fails as a whole.
pub fn collect_manifests(files: &Vec<(String, String)>) -> (r: Vec<(String, PluginInfo)>)
    ensures
        pairs_view(r@) == spec_collect(files@),
        r@.len() <= files@.len(),
{
    let n = files.len();
    let mut out: Vec<(String, PluginInfo)> = Vec::new();
    let mut i: usize = 0;
    proof {
        assert(files@.subrange(0, 0) =~= Seq::<(String, String)>::empty());
        assert(pairs_view(out@) =~= spec_collect(files@.subrange(0, 0)));
    }
    while i < n
        invariant
            n == files@.len(),
            i <= n,
            out@.len() <= i,
            pairs_view(out@) == spec_collect(files@.subrange(0, i as int)),
        decreases n - i,
    {
        let ghost prefix = files@.subrange(0, i as int);
        match parse_manifest(files[i].1.as_str()) {
            Ok(m) => {
                let dir = files[i].0.clone();
                let ghost out_before = out@;
                out.push((dir, m));
                proof {
                    assert(files@.subrange(0, i + 1).drop_last() =~= prefix);
                    assert(files@.subrange(0, i + 1).last() == files@[i as int]);
                    assert(pairs_view(out@) =~= pairs_view(out_before) + seq![
                        (files@[i as int].0@, m@),
                    ]);
                    assert(pairs_view(out@) =~= spec_collect(files@.subrange(0, i + 1)));
                }
            }
            Err(_) => {
                proof {
                    assert(files@.subrange(0, i + 1).drop_last() =~= prefix);
                    assert(files@.subrange(0, i + 1).last() == files@[i as int]);
                    assert(pairs_view(out@) =~= spec_collect(files@.subrange(0, i + 1)));
                }
            }
        }
        i = i + 1;
    }
    proof {
        assert(files@.subrange(0, n as int) =~= files@);
    }
    out
}

} // verus!
