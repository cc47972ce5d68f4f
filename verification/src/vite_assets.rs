//! Resolution of frontend asset names: in development every asset is served
//! by the dev server; in production the build manifest maps an entry to its
//! fingerprinted file and stylesheets. Loading the manifest from disk is the
//! surrounding program's job; resolution works on its plain entries.
use vstd::prelude::*;
use vstd::string::{StrSliceExecFns, StringExecFns};

use crate::text::{eq_str, to_string};

verus! {

/// One entry of the build manifest: the built file and its stylesheets.
#[derive(Clone, Debug)]
pub struct ViteManifestEntry {
    pub file: String,
    pub css: Vec<String>,
}

/// The asset resolver: dev-server mode, or a loaded manifest (absent when
/// no manifest file was found).
pub struct ViteAssets {
    dev_mode: bool,
    manifest: Option<Vec<(String, ViteManifestEntry)>>,
}

/// The first manifest entry under the given name.
pub open spec fn spec_find_entry(
    m: Seq<(String, ViteManifestEntry)>,
    key: Seq<char>,
) -> Option<ViteManifestEntry>
    decreases m.len(),
{
    if m.len() == 0 {
        None
    } else if m[0].0@ == key {
        Some(m[0].1)
    } else {
        spec_find_entry(m.skip(1), key)
    }
}

/// The manifest the resolver answers from: empty when none was loaded.
pub closed spec fn spec_manifest(a: ViteAssets) -> Seq<(String, ViteManifestEntry)> {
    match a.manifest {
        Some(m) => m@,
        None => Seq::empty(),
    }
}

impl ViteAssets {
    pub closed spec fn is_dev(self) -> bool {
        self.dev_mode
    }

    /// A resolver for the given mode; the manifest matters only outside dev
    /// mode.
    pub fn new(dev_mode: bool, manifest: Option<Vec<(String, ViteManifestEntry)>>) -> (r:
        ViteAssets)
        ensures
            r.is_dev() == dev_mode,
            spec_manifest(r) == match manifest {
                Some(m) => m@,
                None => Seq::<(String, ViteManifestEntry)>::empty(),
            },
    {
        ViteAssets { dev_mode, manifest }
    }

    #[verifier::loop_isolation(false)]
    fn find_entry(&self, key: &str) -> (r: Option<&ViteManifestEntry>)
        ensures
            match r {
                Some(e) => spec_find_entry(spec_manifest(*self), key@) == Some(*e),
                None => spec_find_entry(spec_manifest(*self), key@) is None,
            },
    {
        let m = match &self.manifest {
            None => {
                return None;
            },
            Some(m) => m,
        };
        let ghost mv = m@;
        let mut i: usize = 0;
        proof {
            assert(mv.skip(0) =~= mv);
        }
        while i < m.len()
            invariant
                0 <= i <= mv.len(),
                mv == m@,
                spec_find_entry(mv, key@) == spec_find_entry(mv.skip(i as int), key@),
            decreases mv.len() - i,
        {
            proof {
                assert(mv.skip(i as int)[0] == mv[i as int]);
                assert(mv.skip(i as int).skip(1) =~= mv.skip(i + 1));
            }
            if eq_str(m[i].0.as_str(), key) {
                proof {
                    assert(mv[i as int].0@ == key@);
                    assert(spec_find_entry(mv.skip(i as int), key@) == Some(mv[i as int].1));
                }
                return Some(&m[i].1);
            }
            i += 1;
        }
        proof {
            assert(mv.skip(mv.len() as int).len() == 0);
        }
        None
    }

    /// The URL an entry is served under: the dev server path in dev mode,
    /// the fingerprinted build output when the manifest knows the entry,
    /// and an empty string otherwise.
    pub fn get_asset_url(&self, entry: &str) -> (r: String)
        ensures
            self.is_dev() ==> r@ == "http://localhost:5173/assets/src/"@ + entry@,
            !self.is_dev() ==> match spec_find_entry(spec_manifest(*self), "src/"@ + entry@) {
                Some(e) => r@ == "/assets/"@ + e.file@,
                None => r@.len() == 0,
            },
    {
        if self.dev_mode {
            let mut url = to_string("http://localhost:5173/assets/src/");
            url.append(entry);
            return url;
        }
        let mut key = to_string("src/");
        key.append(entry);
        match self.find_entry(key.as_str()) {
            Some(e) => {
                let mut url = to_string("/assets/");
                url.append(e.file.as_str());
                url
            },
            None => String::new(),
        }
    }

    /// The stylesheet URLs of an entry: none in dev mode (the dev server
    /// injects styles itself), the manifest's list prefixed with the asset
    /// root otherwise.
    #[verifier::loop_isolation(false)]
    pub fn get_css_urls(&self, entry: &str) -> (r: Vec<String>)
        ensures
            self.is_dev() ==> r@.len() == 0,
            !self.is_dev() ==> match spec_find_entry(spec_manifest(*self), "src/"@ + entry@) {
                Some(e) => r.deep_view() == e.css.deep_view().map_values(
                    |c: Seq<char>| "/assets/"@ + c,
                ),
                None => r@.len() == 0,
            },
    {
        if self.dev_mode {
            return Vec::new();
        }
        let mut key = to_string("src/");
        key.append(entry);
        let e = match self.find_entry(key.as_str()) {
            None => {
                return Vec::new();
            },
            Some(e) => e,
        };
        let ghost cv = e.css.deep_view();
        let ghost f: spec_fn(Seq<char>) -> Seq<char> = |c: Seq<char>| "/assets/"@ + c;
        let mut out: Vec<String> = Vec::new();
        let mut i: usize = 0;
        proof {
            assert(out.deep_view() =~= cv.take(0).map_values(f));
        }
        while i < e.css.len()
            invariant
                0 <= i <= cv.len(),
                cv.len() == e.css@.len(),
                cv == e.css.deep_view(),
                out.deep_view() == cv.take(i as int).map_values(f),
            decreases cv.len() - i,
        {
            let mut url = to_string("/assets/");
            url.append(e.css[i].as_str());
            let ghost pre = out.deep_view();
            let ghost u = url@;
            out.push(url);
            proof {
                assert(u == f(cv[i as int]));
                assert(out.deep_view() =~= pre.push(u));
                assert(pre.push(u) =~= cv.take(i + 1).map_values(f));
            }
            i += 1;
        }
        proof {
            assert(cv.take(cv.len() as int) =~= cv);
        }
        out
    }

    /// The dev server's client script, present only in dev mode.
    pub fn get_vite_client(&self) -> (r: Option<String>)
        ensures
            match r {
                Some(u) => self.is_dev() && u@ == "http://localhost:5173/assets/@vite/client"@,
                None => !self.is_dev(),
            },
    {
        if self.dev_mode {
            Some(to_string("http://localhost:5173/assets/@vite/client"))
        } else {
            None
        }
    }
}

} // verus!
