//! The directory layout, built from explicitly supplied base
//! directories so that every component can be tested against injected
//! paths. Paths are joined with a forward slash, as on the platforms
//! the store runs on.

use vstd::prelude::*;

verus! {

/// The two paths joined with a single separator.
pub open spec fn spec_join_path(base: Seq<char>, name: Seq<char>) -> Seq<char> {
    base + "/"@ + name
}

/// Joins a base directory and a name with a separator.
pub fn join_path(base: &str, name: &str) -> (r: String)
    ensures
        r@ == spec_join_path(base@, name@),
{
    let mut s = String::from_str(base);
    s.append("/");
    s.append(name);
    proof {
        assert(s@ =~= spec_join_path(base@, name@));
    }
    s
}

/// The tool's data directory under the platform data home.
pub fn get_suiup_data_dir(data_home: &str) -> (r: String)
    ensures
        r@ == spec_join_path(data_home@, "suiup"@),
{
    join_path(data_home, "suiup")
}

/// The tool's configuration directory under the platform config home.
pub fn get_suiup_config_dir(config_home: &str) -> (r: String)
    ensures
        r@ == spec_join_path(config_home@, "suiup"@),
{
    join_path(config_home, "suiup")
}

/// The tool's cache directory under the platform cache home.
pub fn get_suiup_cache_dir(cache_home: &str) -> (r: String)
    ensures
        r@ == spec_join_path(cache_home@, "suiup"@),
{
    join_path(cache_home, "suiup")
}

/// A file inside the tool's configuration directory.
pub fn get_config_file(suiup_config_dir: &str, name: &str) -> (r: String)
    ensures
        r@ == spec_join_path(suiup_config_dir@, name@),
{
    join_path(suiup_config_dir, name)
}

/// Returns the path to the default version file.
pub fn default_file_path(suiup_config_dir: &str) -> (r: String)
    ensures
        r@ == spec_join_path(suiup_config_dir@, "default_version.json"@),
{
    get_config_file(suiup_config_dir, "default_version.json")
}

/// Returns the path to the installed binaries file.
pub fn installed_binaries_file(suiup_config_dir: &str) -> (r: String)
    ensures
        r@ == spec_join_path(suiup_config_dir@, "installed_binaries.json"@),
{
    get_config_file(suiup_config_dir, "installed_binaries.json")
}

/// The directory downloaded release archives are cached in.
pub fn release_archive_dir(suiup_cache_dir: &str) -> (r: String)
    ensures
        r@ == spec_join_path(suiup_cache_dir@, "releases"@),
{
    join_path(suiup_cache_dir, "releases")
}

/// Returns the path to the binaries folder.
pub fn binaries_dir(suiup_data_dir: &str) -> (r: String)
    ensures
        r@ == spec_join_path(suiup_data_dir@, "binaries"@),
{
    join_path(suiup_data_dir, "binaries")
}

} // verus!
