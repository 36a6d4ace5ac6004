//! Host configuration: where plugins are scanned from, where published UI
//! symlinks live, and how large the handler cache is.

use vstd::prelude::*;

verus! {

/// What the plugin manager needs to know from its host's configuration.
pub trait PluginManagerConfig {
    /// The directory under which published symlinks are created.
    spec fn spec_symlink_base_dir(&self) -> Seq<char>;

    /// The fixed file name of each plugin's published symlink.
    spec fn spec_web_file_name(&self) -> Seq<char>;

    /// The handler cache capacity.
    spec fn spec_num_cache(&self) -> nat;

    /// The directory under which published symlinks are created.
    fn symlink_base_dir(&self) -> (r: String)
        ensures
            r@ == self.spec_symlink_base_dir(),
    ;

    /// The fixed file name of each plugin's published symlink.
    fn web_file_name(&self) -> (r: String)
        ensures
            r@ == self.spec_web_file_name(),
    ;

    /// The handler cache capacity.
    fn num_cache(&self) -> (r: usize)
        ensures
            r == self.spec_num_cache(),
    ;
}

/// The host configuration, with working defaults for every field.
#[derive(Debug)]
pub struct Config {
    /// The directory scanned when a scan request names none.
    pub scan_base_dir: String,
    /// The directory under which published symlinks are created.
    pub net_base_dir: String,
    /// The handler cache capacity.
    pub num_cache: usize,
    /// The fixed file name of each plugin's published symlink.
    pub web_file_name: String,
    /// The path segment under which published files are served.
    pub net_path_name: String,
    /// The server's full address, once it is known.
    pub host: Option<String>,
}

impl PluginManagerConfig for Config {
    open spec fn spec_symlink_base_dir(&self) -> Seq<char> {
        self.net_base_dir@
    }

    open spec fn spec_web_file_name(&self) -> Seq<char> {
        self.web_file_name@
    }

    open spec fn spec_num_cache(&self) -> nat {
        self.num_cache as nat
    }

    fn symlink_base_dir(&self) -> (r: String)
        ensures
            r@ == self.spec_symlink_base_dir(),
    {
        self.net_base_dir.clone()
    }

    fn web_file_name(&self) -> (r: String)
        ensures
            r@ == self.spec_web_file_name(),
    {
        self.web_file_name.clone()
    }

    fn num_cache(&self) -> (r: usize)
        ensures
            r == self.spec_num_cache(),
    {
        self.num_cache
    }
}

impl Default for Config {
    fn default() -> (r: Self)
        ensures
            r.scan_base_dir@ == "test_dir_scan"@,
            r.net_base_dir@ == "test_dir_fs"@,
            r.num_cache == 20,
            r.web_file_name@ == "index"@,
            r.net_path_name@ == "fs"@,
            r.host is None,
    {
        Config {
            scan_base_dir: "test_dir_scan".to_owned(),
            net_base_dir: "test_dir_fs".to_owned(),
            num_cache: 20,
            web_file_name: "index".to_owned(),
            net_path_name: "fs".to_owned(),
            host: None,
        }
    }
}

impl Config {
    /// Roots the default scan and symlink directories under `dir` and
    /// records the server address.  Meant to be called once at startup.
    pub fn setup_dir(&mut self, dir: &str, host: &str)
        ensures
            final(self).scan_base_dir@ == dir@ + "/"@ + "test_dir_scan"@,
            final(self).net_base_dir@ == dir@ + "/"@ + "test_dir_fs"@,
            final(self).host matches Some(h) && h@ == host@,
            final(self).num_cache == old(self).num_cache,
            final(self).web_file_name == old(self).web_file_name,
            final(self).net_path_name == old(self).net_path_name,
    {
        let mut scan = dir.to_owned();
        scan.append("/");
        scan.append("test_dir_scan");
        let mut net = dir.to_owned();
        net.append("/");
        net.append("test_dir_fs");
        self.scan_base_dir = scan;
        self.net_base_dir = net;
        self.host = Some(host.to_owned());
    }

    /// The served path of the plugin with id `id`: the symlink directory,
    /// the id, and the fixed symlink file name, joined with `/`.
    pub fn get_fs_path(&self, id: &str) -> (r: String)
        ensures
            r@ == self.net_base_dir@ + "/"@ + id@ + "/"@ + self.web_file_name@,
    {
        let mut p = self.net_base_dir.clone();
        p.append("/");
        p.append(id);
        p.append("/");
        p.append(self.web_file_name.as_str());
        p
    }
}

} // verus!
