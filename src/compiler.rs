//! The evaluator client: how the evaluator is invoked, how its output is
//! accepted, and how its diagnostics are read.

use vstd::prelude::*;

use crate::error::KarabinerPklError;
use crate::json::{
    find_member, first_key_at, items_view, lemma_member_set_same_key, lemma_items_view, lemma_members_view, member,
    members_view, with_member, Json, JsonV, Member,
};
use crate::merge::profiles_in;

verus! {

/// Where the bundled configuration library is installed.
pub const ANKURA_LIB_DIR: &'static str = "/opt/homebrew/var/lib/ankura";

/// How the evaluator is reached: its executable and the directory of the
/// bundled library.
pub struct Compiler {
    pkl_path: String,
    embedded_lib_path: String,
}

/// The module search path: the bundled library first, then the user's library
/// when there is one, separated by `:`.
pub open spec fn module_path_of(embedded: Seq<char>, user_lib: Option<Seq<char>>) -> Seq<char> {
    match user_lib {
        Some(u) => embedded + ":"@ + u,
        None => embedded,
    }
}

/// Why a compiled configuration is rejected, if it is.
pub open spec fn validation_error(c: JsonV) -> Option<Seq<char>> {
    if !(c is Object) {
        Some("Configuration must be an object"@)
    } else if member(c, "profiles"@) is None {
        Some("Configuration must contain 'profiles' field"@)
    } else if !(member(c, "profiles"@)->Some_0 is Array) {
        Some("'profiles' must be an array"@)
    } else if profiles_in(c).len() == 0 {
        Some("Configuration must contain at least one profile"@)
    } else {
        None
    }
}

/// Why the evaluator's output is rejected, if it is: the configuration sits under
/// its `config` member.
pub open spec fn output_error(out: JsonV) -> Option<Seq<char>> {
    match member(out, "config"@) {
        None => Some("Evaluator output must contain a 'config' field"@),
        Some(c) => validation_error(c),
    }
}

/// A configuration whose first profile is renamed to `name`, when one is given.
pub open spec fn with_profile_name(c: JsonV, name: Option<Seq<char>>) -> JsonV {
    match name {
        None => c,
        Some(n) => {
            let ps = profiles_in(c);
            with_member(
                c,
                "profiles"@,
                JsonV::Array(ps.update(0, with_member(ps[0], "name"@, JsonV::Str(n)))),
            )
        },
    }
}

impl Compiler {
    pub closed spec fn spec_pkl_path(&self) -> Seq<char> {
        self.pkl_path@
    }

    pub closed spec fn spec_embedded_lib_path(&self) -> Seq<char> {
        self.embedded_lib_path@
    }

    /// A client for the evaluator at `pkl_path`, with the bundled library at
    /// `embedded_lib_path`.
    pub fn new(pkl_path: String, embedded_lib_path: String) -> (r: Compiler)
        ensures
            r.spec_pkl_path() == pkl_path@,
            r.spec_embedded_lib_path() == embedded_lib_path@,
    {
        Compiler { pkl_path, embedded_lib_path }
    }

    /// The evaluator's executable.
    pub fn pkl_path(&self) -> (r: &str)
        ensures
            r@ == self.spec_pkl_path(),
    {
        self.pkl_path.as_str()
    }

    /// Where the bundled library is installed.
    pub fn lib_dir() -> (r: String)
        ensures
            r@ == ANKURA_LIB_DIR@,
    {
        ANKURA_LIB_DIR.to_string()
    }

    /// The module search path handed to the evaluator.
    pub fn search_path(&self, user_lib: Option<&str>) -> (r: String)
        ensures
            r@ == module_path_of(
                self.spec_embedded_lib_path(),
                match user_lib {
                    Some(u) => Some(u@),
                    None => None,
                },
            ),
    {
        let mut p = self.embedded_lib_path.clone();
        match user_lib {
            Some(u) => {
                p.append(":");
                p.append(u);
            },
            None => {},
        }
        p
    }

    /// The evaluator's arguments for compiling `config_path` to JSON.
    pub fn eval_args(&self, config_path: &str, user_lib: Option<&str>) -> (r: Vec<String>)
        ensures
            r@.len() == 5,
            r@[0]@ == "eval"@,
            r@[1]@ == "--format=json"@,
            r@[2]@ == "--module-path"@,
            r@[3]@ == module_path_of(
                self.spec_embedded_lib_path(),
                match user_lib {
                    Some(u) => Some(u@),
                    None => None,
                },
            ),
            r@[4]@ == config_path@,
    {
        let mut args: Vec<String> = Vec::new();
        args.push("eval".to_string());
        args.push("--format=json".to_string());
        args.push("--module-path".to_string());
        args.push(self.search_path(user_lib));
        args.push(config_path.to_string());
        args
    }
}

/// Checks the shape of a compiled configuration: an object with a non-empty
/// `profiles` array.
pub fn validate_config(config: &Json) -> (r: Result<(), KarabinerPklError>)
    ensures
        match validation_error(config@) {
            Some(m) => r matches Err(KarabinerPklError::ValidationError { message }) && message@ == m,
            None => r is Ok,
        },
{
    if !config.is_object() {
        return Err(KarabinerPklError::ValidationError { message: "Configuration must be an object".to_string() });
    }
    match config.get("profiles") {
        None => Err(
            KarabinerPklError::ValidationError {
                message: "Configuration must contain 'profiles' field".to_string(),
            },
        ),
        Some(p) => match p.array_len() {
            None => Err(KarabinerPklError::ValidationError { message: "'profiles' must be an array".to_string() }),
            Some(n) => {
                if n == 0 {
                    Err(
                        KarabinerPklError::ValidationError {
                            message: "Configuration must contain at least one profile".to_string(),
                        },
                    )
                } else {
                    Ok(())
                }
            },
        },
    }
}


/// Renaming the first profile keeps a configuration valid.
proof fn lemma_rename_keeps_valid(c: JsonV, name: Option<Seq<char>>)
    requires
        validation_error(c) is None,
    ensures
        validation_error(with_profile_name(c, name)) is None,
{
    if let Some(n) = name {
        let ps = profiles_in(c);
        let a = JsonV::Array(ps.update(0, with_member(ps[0], "name"@, JsonV::Str(n))));
        lemma_member_set_same_key(c, "profiles"@, a);
    }
}

/// Renames the first profile of a validated configuration.
fn rename_first_profile(config: Json, name: &str) -> (r: Json)
    requires
        validation_error(config@) is None,
    ensures
        r@ == with_profile_name(config@, Some(name@)),
{
    let ghost c = config@;
    let mut ms = match config {
        Json::Object(ms) => ms,
        _ => Vec::new(),
    };
    proof {
        lemma_members_view(ms@);
    }
    let ghost mv = members_view(ms@);
    assert(c == JsonV::Object(mv));
    match find_member(&ms, "profiles") {
        Some(i) => {
            let m = ms.remove(i);
            assert(m.key@ == "profiles"@) by {
                assert(first_key_at(mv, "profiles"@, i as int));
            }
            let mut ps = match m.value {
                Json::Array(v) => v,
                _ => Vec::new(),
            };
            proof {
                lemma_items_view(ps@);
            }
            let ghost pv = items_view(ps@);
            assert(pv == profiles_in(c));
            let first = ps.remove(0);
            let renamed = first.with_member("name", Json::Str(name.to_string()));
            ps.insert(0, renamed);
            proof {
                lemma_items_view(ps@);
                assert(items_view(ps@) =~= pv.update(0, with_member(pv[0], "name"@, JsonV::Str(name@))));
            }
            ms.insert(i, Member { key: m.key, value: Json::Array(ps) });
            proof {
                lemma_members_view(ms@);
                assert(members_view(ms@) =~= mv.update(
                    i as int,
                    ("profiles"@, JsonV::Array(pv.update(0, with_member(pv[0], "name"@, JsonV::Str(name@))))),
                ));
            }
            Json::Object(ms)
        },
        None => Json::Object(ms),
    }
}

/// Accepts the evaluator's JSON output: takes the configuration from its
/// `config` member, checks its shape, and only then renames the first profile
/// when `profile_name` is given.
pub fn accept_output(output: Json, profile_name: Option<&str>) -> (r: Result<Json, KarabinerPklError>)
    ensures
        match output_error(output@) {
            Some(m) => r matches Err(KarabinerPklError::ValidationError { message }) && message@ == m,
            None => r matches Ok(c) && c@ == with_profile_name(
                member(output@, "config"@)->Some_0,
                match profile_name {
                    Some(n) => Some(n@),
                    None => None,
                },
            ),
        },
        r matches Ok(c) ==> validation_error(c@) is None,
{
    let ghost out = output@;
    let config = match output {
        Json::Object(ms) => {
            let mut ms = ms;
            proof {
                lemma_members_view(ms@);
            }
            match find_member(&ms, "config") {
                Some(i) => {
                    let m = ms.remove(i);
                    m.value
                },
                None => {
                    return Err(
                        KarabinerPklError::ValidationError {
                            message: "Evaluator output must contain a 'config' field".to_string(),
                        },
                    );
                },
            }
        },
        _ => {
            return Err(
                KarabinerPklError::ValidationError {
                    message: "Evaluator output must contain a 'config' field".to_string(),
                },
            );
        },
    };
    assert(member(out, "config"@) == Some(config@));
    proof {
        if validation_error(config@) is None {
            lemma_rename_keeps_valid(
                config@,
                match profile_name {
                    Some(n) => Some(n@),
                    None => None,
                },
            );
        }
    }
    match validate_config(&config) {
        Err(e) => Err(e),
        Ok(()) => match profile_name {
            Some(n) => Ok(rename_first_profile(config, n)),
            None => Ok(config),
        },
    }
}

} // verus!
