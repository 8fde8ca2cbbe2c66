//! The settings of the downloader.
use vstd::prelude::*;

use crate::manifest::store::{app_dir_name, base_or_current, manifests_dir_name, ManifestStore};
use crate::paths::{config_dir, download_dir, join_path, join_result, join_twice_result, kept_component};

verus! {

broadcast use vstd::string::group_string_axioms;

/// The settings of the downloader.
#[derive(Debug, Clone)]
pub struct Settings {
    pub manifest_repo_url: String,
    pub local_manifest_path: String,
    pub output_directory: String,
    pub max_concurrent_downloads: usize,
    pub verify_downloads: bool,
    pub save_credentials: bool,
}

pub open spec fn manifest_hub_repo_url() -> Seq<char> {
    "https://github.com/SteamAutoCracks/ManifestHub"@
}

/// The settings that a first run starts with, given the user's
/// configuration and download directories: manifests under
/// `depot_downloader/manifests` in the one, downloads under
/// `depot_downloader` in the other.
pub open spec fn default_settings(
    s: Settings,
    config: Option<String>,
    downloads: Option<String>,
) -> bool {
    &&& s.manifest_repo_url@ == manifest_hub_repo_url()
    &&& join_twice_result(
        base_or_current(config),
        app_dir_name(),
        manifests_dir_name(),
        s.local_manifest_path@,
    )
    &&& join_result(base_or_current(downloads), app_dir_name(), s.output_directory@)
    &&& s.max_concurrent_downloads == 8
    &&& s.verify_downloads
    &&& !s.save_credentials
}

impl Settings {
    /// The settings that a first run starts with: the ManifestHub
    /// repository, manifests kept in `depot_downloader/manifests` under the
    /// configuration directory, downloads going to `depot_downloader` under
    /// the download directory (the current directory stands in for a
    /// missing one), eight downloads at once, downloads verified,
    /// credentials not saved.
    pub fn default_in(config: Option<String>, downloads: Option<String>) -> (s: Self)
        ensures
            default_settings(s, config, downloads),
    {
        proof {
            reveal_strlit(".");
            reveal_strlit("depot_downloader");
            assert(kept_component(app_dir_name()));
        }
        let local_manifest_path = ManifestStore::default_path_in(config);
        let out_base = match downloads {
            Some(d) => d,
            None => String::from_str("."),
        };
        assert(out_base@ == base_or_current(downloads));
        assert("depot_downloader"@ =~= app_dir_name());
        let output_directory = join_path(out_base.as_str(), "depot_downloader");
        let s = Settings {
            manifest_repo_url: String::from_str("https://github.com/SteamAutoCracks/ManifestHub"),
            local_manifest_path,
            output_directory,
            max_concurrent_downloads: 8,
            verify_downloads: true,
            save_credentials: false,
        };
        assert(s.manifest_repo_url@ == manifest_hub_repo_url());
        s
    }

    /// The settings that a first run starts with, under the user's
    /// configuration and download directories.
    pub fn new() -> (s: Self)
        ensures
            exists|c: Option<String>, d: Option<String>| default_settings(s, c, d),
    {
        let c = config_dir();
        let d = download_dir();
        let ghost gc = c;
        let ghost gd = d;
        let s = Self::default_in(c, d);
        assert(default_settings(s, gc, gd));
        s
    }
}

impl Default for Settings {
    fn default() -> (s: Self)
        ensures
            exists|c: Option<String>, d: Option<String>| default_settings(s, c, d),
    {
        Self::new()
    }
}

} // verus!
