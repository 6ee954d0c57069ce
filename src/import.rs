//! Importing configuration modules into the user's library directory: where an
//! imported file goes and which sources are accepted. Fetching and copying are
//! left to the caller.

use vstd::prelude::*;

use crate::error::KarabinerPklError;
use crate::text::{component_start, ends_with, has_prefix, has_suffix, join, join_path, last_component, starts_with};

verus! {

/// The user's library directory under a home directory.
pub open spec fn user_lib_dir_of(home: Seq<char>) -> Seq<char> {
    join_path(home, ".config/karabiner_pkl/lib"@)
}

/// Whether an import source is a URL to download rather than a local file.
pub open spec fn is_url_spec(source: Seq<char>) -> bool {
    starts_with(source, "http://"@) || starts_with(source, "https://"@)
}

/// The view of an optional string.
pub open spec fn opt_view(o: Option<&str>) -> Option<Seq<char>> {
    match o {
        Some(s) => Some(s@),
        None => None,
    }
}

/// The name an imported file takes: the given one, or the last component of its source.
pub open spec fn import_name_of(source: Seq<char>, name: Option<Seq<char>>) -> Seq<char> {
    match name {
        Some(n) => n,
        None => last_component(source),
    }
}

/// Whether a file name is that of a configuration module.
pub fn is_pkl_file(name: &str) -> (r: bool)
    ensures
        r == ends_with(name@, ".pkl"@),
{
    has_suffix(name, ".pkl")
}

/// Whether an import source is a URL.
pub fn is_url(source: &str) -> (r: bool)
    ensures
        r == is_url_spec(source@),
{
    has_prefix(source, "http://") || has_prefix(source, "https://")
}

/// The name an imported file takes.
pub fn import_name(source: &str, name: Option<&str>) -> (r: String)
    ensures
        r@ == import_name_of(source@, opt_view(name)),
{
    match name {
        Some(n) => n.to_string(),
        None => {
            let k = component_start(source);
            source.substring_char(k, source.unicode_len()).to_string()
        },
    }
}

/// The line that makes a configuration use an imported module.
pub fn import_line(source: &str, name: Option<&str>) -> (r: String)
    ensures
        r@ == "import \"modulepath:/"@ + import_name_of(source@, opt_view(name)) + "\""@,
{
    let mut line = "import \"modulepath:/".to_string();
    let n = import_name(source, name);
    line.append(n.as_str());
    line.append("\"");
    line
}

/// Puts imported modules into the user's library directory.
pub struct Importer {
    lib_dir: String,
}

impl Importer {
    pub closed spec fn spec_lib_dir(&self) -> Seq<char> {
        self.lib_dir@
    }

    /// An importer into the library directory under `home`.
    pub fn new(home: &str) -> (r: Importer)
        ensures
            r.spec_lib_dir() == user_lib_dir_of(home@),
    {
        Importer { lib_dir: join(home, ".config/karabiner_pkl/lib") }
    }

    /// The library directory.
    pub fn get_lib_dir(&self) -> (r: &str)
        ensures
            r@ == self.spec_lib_dir(),
    {
        self.lib_dir.as_str()
    }

    /// Where a module downloaded from `url` is stored: under `name` or the URL's
    /// last component, which must end in `.pkl`.
    pub fn target_for_url(&self, url: &str, name: Option<&str>) -> (r: Result<String, KarabinerPklError>)
        ensures
            ends_with(import_name_of(url@, opt_view(name)), ".pkl"@) ==> (r matches Ok(t) && t@
                == join_path(self.spec_lib_dir(), import_name_of(url@, opt_view(name)))),
            !ends_with(import_name_of(url@, opt_view(name)), ".pkl"@) ==> (r matches Err(
                KarabinerPklError::ValidationError { message },
            ) && message@ == "Imported files must have .pkl extension"@),
    {
        let filename = import_name(url, name);
        if !is_pkl_file(filename.as_str()) {
            return Err(
                KarabinerPklError::ValidationError {
                    message: "Imported files must have .pkl extension".to_string(),
                },
            );
        }
        Ok(join(self.lib_dir.as_str(), filename.as_str()))
    }

    /// Where a local module at `path` is copied: under `name` or the file's own
    /// name. The source itself must end in `.pkl`.
    pub fn target_for_file(&self, path: &str, name: Option<&str>) -> (r: Result<String, KarabinerPklError>)
        ensures
            ends_with(path@, ".pkl"@) ==> (r matches Ok(t) && t@ == join_path(
                self.spec_lib_dir(),
                import_name_of(path@, opt_view(name)),
            )),
            !ends_with(path@, ".pkl"@) ==> (r matches Err(KarabinerPklError::ValidationError { message })
                && message@ == "Source file must have .pkl extension"@),
    {
        if !is_pkl_file(path) {
            return Err(
                KarabinerPklError::ValidationError {
                    message: "Source file must have .pkl extension".to_string(),
                },
            );
        }
        let filename = import_name(path, name);
        Ok(join(self.lib_dir.as_str(), filename.as_str()))
    }
}

} // verus!
