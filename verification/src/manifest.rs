//! Plugin manifest data: what a plugin package declares about itself, and the
//! registry-side wrapper that pairs it with the derived id and the published
//! network resource.

use vstd::prelude::*;

verus! {

/// How the plugin's UI page is opened: embedded in the host page, or in a
/// window of its own.
#[derive(Debug, Clone, Copy, PartialEq, Eq, Structural)]
pub enum Launcher {
    Content,
    NewWindow,
}

impl Default for Launcher {
    fn default() -> (r: Self)
        ensures
            r == Launcher::NewWindow,
    {
        Launcher::NewWindow
    }
}

/// The resource paths a plugin declares: its native library file and its UI
/// entry page.  Either may be relative to the directory holding the manifest.
#[derive(Debug)]
pub struct PluginRes {
    /// Path of the plugin's native library file.
    pub file: String,
    /// Path of the plugin's UI entry page.
    pub html: String,
}

/// Mathematical model of a [`PluginRes`].
pub struct PluginResV {
    pub file: Seq<char>,
    pub html: Seq<char>,
}

impl View for PluginRes {
    type V = PluginResV;

    open spec fn view(&self) -> PluginResV {
        PluginResV { file: self.file@, html: self.html@ }
    }
}

impl PluginRes {
    pub fn new(file: &str, html: &str) -> (r: Self)
        ensures
            r@ == (PluginResV { file: file@, html: html@ }),
    {
        PluginRes { file: file.to_owned(), html: html.to_owned() }
    }

    pub fn clone(&self) -> (r: Self)
        ensures
            r@ == self@,
    {
        PluginRes { file: self.file.clone(), html: self.html.clone() }
    }
}

impl Default for PluginRes {
    /// The conventional resource names used when a manifest declares none.
    fn default() -> (r: Self)
        ensures
            r@.file == "index.so"@,
            r@.html == "index.html"@,
    {
        PluginRes::new("index.so", "index.html")
    }
}

/// A plugin's declared metadata, as read from its manifest file.
#[derive(Debug)]
pub struct PluginInfo {
    /// The plugin's name; the registry id is derived from it.
    pub name: String,
    /// The plugin's version string.
    pub version: String,
    /// An optional secondary search keyword.
    pub keyword: Option<String>,
    /// How the plugin's UI page is opened.
    pub luncher: Launcher,
    /// The declared resource paths.
    pub res: PluginRes,
}

/// Mathematical model of a [`PluginInfo`].
pub struct PluginInfoV {
    pub name: Seq<char>,
    pub version: Seq<char>,
    pub keyword: Option<Seq<char>>,
    pub luncher: Launcher,
    pub res: PluginResV,
}

impl View for PluginInfo {
    type V = PluginInfoV;

    open spec fn view(&self) -> PluginInfoV {
        PluginInfoV {
            name: self.name@,
            version: self.version@,
            keyword: match self.keyword {
                Some(k) => Some(k@),
                None => None,
            },
            luncher: self.luncher,
            res: self.res@,
        }
    }
}

impl PluginInfo {
    /// A manifest with the given name, version and resource paths, no
    /// keyword, and the default launcher.
    pub fn new(name: &str, version: &str, file: &str, html: &str) -> (r: Self)
        ensures
            r@ == (PluginInfoV {
                name: name@,
                version: version@,
                keyword: None,
                luncher: Launcher::NewWindow,
                res: PluginResV { file: file@, html: html@ },
            }),
    {
        PluginInfo {
            name: name.to_owned(),
            version: version.to_owned(),
            keyword: None,
            luncher: Launcher::NewWindow,
            res: PluginRes::new(file, html),
        }
    }

    /// A manifest with the given name and version and the conventional
    /// default resource paths.
    pub fn default(name: &str, version: &str) -> (r: Self)
        ensures
            r@ == (PluginInfoV {
                name: name@,
                version: version@,
                keyword: None,
                luncher: Launcher::NewWindow,
                res: PluginResV { file: "index.so"@, html: "index.html"@ },
            }),
    {
        PluginInfo {
            name: name.to_owned(),
            version: version.to_owned(),
            keyword: None,
            luncher: Launcher::NewWindow,
            res: PluginRes::default(),
        }
    }

    pub fn clone(&self) -> (r: Self)
        ensures
            r@ == self@,
    {
        PluginInfo {
            name: self.name.clone(),
            version: self.version.clone(),
            keyword: match &self.keyword {
                Some(k) => Some(k.clone()),
                None => None,
            },
            luncher: self.luncher,
            res: self.res.clone(),
        }
    }

    /// The plugin shown as `name(version)`.
    pub fn display_string(&self) -> (r: String)
        ensures
            r@ == self@.name + "("@ + self@.version + ")"@,
    {
        let mut s = self.name.clone();
        s.append("(");
        s.append(self.version.as_str());
        s.append(")");
        s
    }
}

/// A registered plugin's information: the derived id, the declared manifest,
/// and, once published, the network-facing resource whose `html` points at
/// the served symlink rather than the plugin's original file.
#[derive(Debug)]
pub struct PluginInfoWrapper {
    /// The id derived from the plugin's name.
    pub id: String,
    /// The manifest as declared by the plugin.
    pub info: PluginInfo,
    /// The published resource, absolute library path and served UI path.
    pub info_net: Option<PluginRes>,
}

/// Mathematical model of a [`PluginInfoWrapper`].
pub struct PluginInfoWrapperV {
    pub id: Seq<char>,
    pub info: PluginInfoV,
    pub info_net: Option<PluginResV>,
}

impl View for PluginInfoWrapper {
    type V = PluginInfoWrapperV;

    open spec fn view(&self) -> PluginInfoWrapperV {
        PluginInfoWrapperV {
            id: self.id@,
            info: self.info@,
            info_net: match self.info_net {
                Some(n) => Some(n@),
                None => None,
            },
        }
    }
}

impl PluginInfoWrapper {
    pub fn new(id: String, info: PluginInfo, info_net: Option<PluginRes>) -> (r: Self)
        ensures
            r@.id == id@,
            r@.info == info@,
            r@.info_net == match info_net {
                Some(n) => Some(n@),
                None => None::<PluginResV>,
            },
    {
        PluginInfoWrapper { id, info, info_net }
    }

    pub fn clone(&self) -> (r: Self)
        ensures
            r@ == self@,
    {
        PluginInfoWrapper {
            id: self.id.clone(),
            info: self.info.clone(),
            info_net: match &self.info_net {
                Some(n) => Some(n.clone()),
                None => None,
            },
        }
    }

    /// The plugin shown as `name@version`.
    pub fn display_string(&self) -> (r: String)
        ensures
            r@ == self@.info.name + "@"@ + self@.info.version,
    {
        let mut s = self.info.name.clone();
        s.append("@");
        s.append(self.info.version.as_str());
        s
    }
}

} // verus!
