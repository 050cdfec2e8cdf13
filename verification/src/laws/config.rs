//! Laws of the configuration and of paths.

use crate::config::{
    config_path, path_below, storage_path, storage_root, user_storage_root, Config, ConfigFile,
};
use crate::path::{blank_path, joins, joins_all, FilePath};
use crate::text::texts;
use std::path::PathBuf;
use vstd::prelude::*;
use vstd::string::*;

verus! {

/// Whether an optional text is another one.
pub open spec fn agree(a: Option<String>, b: Option<String>) -> bool {
    &&& a is Some <==> b is Some
    &&& a is Some ==> a->0@ == b->0@
}

/// A configuration file gives what it holds; where it names no address, that of a Zotero
/// on this machine, and where it names no kind of library, that of a user.
pub proof fn law_config_of_file(file: ConfigFile, r: Config)
    requires
        call_ensures(Config::from_file, (file,), r),
    ensures
        file.api_base is Some ==> r.api_base@ == file.api_base->0@,
        file.api_base is None ==> r.api_base@ == "http://localhost:23119/api"@,
        agree(r.api_key, file.api_key),
        r.user_id == file.user_id,
        file.library_type is Some ==> r.library_type@ == file.library_type->0@,
        file.library_type is None ==> r.library_type@ == "user"@,
{
    assert(r@.api_key == file@.api_key);
}

/// The file of a configuration holds all of it.
pub proof fn law_file_of_config(c: Config, r: ConfigFile)
    requires
        call_ensures(Config::to_file, (c,), r),
    ensures
        r.api_base is Some,
        r.api_base->0@ == c.api_base@,
        agree(r.api_key, c.api_key),
        r.user_id == c.user_id,
        r.library_type is Some,
        r.library_type->0@ == c.library_type@,
{
    assert(r@.api_base == Some(c.api_base@));
    assert(r@.api_key == c@.api_key);
    assert(r@.library_type == Some(c.library_type@));
}

/// The configuration in effect has the address and the key of the environment where they
/// are set, else those of the file, else the address of a Zotero on this machine and no
/// key. The user and the kind of library come from the file alone.
pub proof fn law_config_in_effect(
    file: Option<Config>,
    base: Option<String>,
    key: Option<String>,
    r: Config,
)
    requires
        call_ensures(Config::load, (file, base, key), r),
    ensures
        base is Some ==> r.api_base@ == base->0@,
        base is None && file is Some ==> r.api_base@ == file->0.api_base@,
        base is None && file is None ==> r.api_base@ == "http://localhost:23119/api"@,
        key is Some ==> agree(r.api_key, key),
        key is None && file is Some ==> agree(r.api_key, file->0.api_key),
        key is None && file is None ==> r.api_key is None,
        file is Some ==> r.user_id == file->0.user_id && r.library_type@ == file->0.library_type@,
        file is None ==> r.user_id is None && r.library_type@ == "user"@,
{
    assert(base.deep_view() is Some <==> base is Some);
    assert(key.deep_view() is Some <==> key is Some);
    if let Some(c) = file {
        assert(c@.api_key is Some <==> c.api_key is Some);
    }
    assert(r@.api_key is Some <==> r.api_key is Some);
}

/// The configuration file is `config.toml` in `zotero-mcp` below the directory for
/// configurations, or below `~/.config` where there is none.
pub proof fn law_config_path(dir: Option<PathBuf>, r: FilePath)
    requires
        call_ensures(config_path, (dir,), r),
    ensures
        r.base == dir,
        dir is Some ==> texts(r.parts@) == seq!["zotero-mcp"@, "config.toml"@],
        dir is None ==> texts(r.parts@) == seq!["~/.config"@, "zotero-mcp"@, "config.toml"@],
{
}

/// The storage of attachments is the directory that is set, else `Zotero/storage` below
/// the home directory, else `/Zotero/storage`.
pub proof fn law_storage(setting: Option<PathBuf>, home: Option<PathBuf>, r: FilePath)
    requires
        call_ensures(storage_root, (setting, home), r),
    ensures
        setting is Some ==> r.base == setting && r.parts@.len() == 0,
        setting is None && home is Some ==> r.base == home && texts(r.parts@) == seq![
            "Zotero"@,
            "storage"@,
        ],
        setting is None && home is None ==> r.base is None && texts(r.parts@) == seq![
            "/Zotero/storage"@,
        ],
{
    assert(texts(r.parts@).len() == r.parts@.len());
}

/// One more part is joined to what the parts in front of it make; without parts a path is
/// its directory.
pub proof fn law_joined_path(dir: PathBuf, parts: Seq<Seq<char>>, part: Seq<char>, r: PathBuf)
    ensures
        joins_all(dir, Seq::empty(), r) <==> r == dir,
        joins_all(dir, parts.push(part), r) <==> exists|q: PathBuf|
            joins_all(dir, parts, q) && #[trigger] joins(q, part, r),
{
    let all = parts.push(part);
    assert(all.drop_last() =~= parts);
    if joins_all(dir, all, r) {
        let q = choose|q: PathBuf|
            joins_all(dir, all.drop_last(), q) && #[trigger] joins(q, all.last(), r);
        assert(joins(q, part, r));
    }
    if exists|q: PathBuf| joins_all(dir, parts, q) && #[trigger] joins(q, part, r) {
        let q = choose|q: PathBuf| joins_all(dir, parts, q) && #[trigger] joins(q, part, r);
        assert(joins(q, all.last(), r));
    }
}

/// A path of the system is the directory, or the empty path where there is none, with all
/// parts joined to it in their order.
pub proof fn law_to_path(path: FilePath, r: PathBuf)
    requires
        call_ensures(FilePath::to_path, (path,), r),
    ensures
        path.base is Some ==> joins_all(path.base->0, texts(path.parts@), r),
        path.base is None ==> exists|e: PathBuf| #[trigger]
            blank_path(e) && joins_all(e, texts(path.parts@), r),
{
}

/// A part below a path is its last part.
pub proof fn law_below(path: FilePath, part: &str, r: FilePath)
    requires
        call_ensures(FilePath::below, (path, part), r),
    ensures
        r.base == path.base,
        texts(r.parts@) == texts(path.parts@).push(part@),
{
}

/// Wherever the configuration file of the user lies, it is `config.toml` in `zotero-mcp`.
pub proof fn law_user_config_path(r: FilePath)
    requires
        call_ensures(Config::path, (), r),
    ensures
        r.base is Some ==> texts(r.parts@) == seq!["zotero-mcp"@, "config.toml"@],
        r.base is None ==> texts(r.parts@) == seq!["~/.config"@, "zotero-mcp"@, "config.toml"@],
{
    let dir = choose|dir: Option<PathBuf>| r@ == #[trigger] path_below(dir);
    assert(r@ == path_below(dir));
}

/// Wherever the home directory of the user lies, the storage is the directory that is set,
/// else `Zotero/storage` below it, else `/Zotero/storage`.
pub proof fn law_user_storage(setting: Option<PathBuf>, r: FilePath)
    requires
        call_ensures(user_storage_root, (setting,), r),
    ensures
        setting is Some ==> r.base == setting && r.parts@.len() == 0,
        setting is None && r.base is Some ==> texts(r.parts@) == seq!["Zotero"@, "storage"@],
        setting is None && r.base is None ==> texts(r.parts@) == seq!["/Zotero/storage"@],
{
    let home = choose|home: Option<PathBuf>| r@ == #[trigger] storage_path(setting, home);
    assert(r@ == storage_path(setting, home));
    assert(texts(r.parts@).len() == r.parts@.len());
}

} // verus!
