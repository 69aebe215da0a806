//! The catalog store's decision logic: where the catalog lives under the
//! per-user configuration directory, and what a load does with the stored
//! text — parse it, or fall back to the default catalog and persist it.
//! The caller performs the file reads and writes themselves.

use vstd::prelude::*;
use vstd::string::StringExecFns;
use crate::catalog::CommandsFile;
use crate::catalog::default_commands_spec;
use crate::catalog::get_default_commands;
use crate::codec::parse_commands_file;
use crate::codec::render_catalog;
use crate::codec::render_commands_file;
use crate::codec::sp_catalog;

verus! {

/// How a load proceeds: use the stored catalog, or initialize the default
/// one and persist the paired text.
pub enum LoadPlan {
    UseStored(CommandsFile),
    InitDefault(CommandsFile, String),
}

/// The fixed path of the stored catalog, relative to the home directory.
pub fn config_path_segments() -> (v: Vec<String>)
    ensures
        v@.len() == 3,
        v@[0]@ == ".config"@,
        v@[1]@ == "archmie"@,
        v@[2]@ == "commands.json"@,
{
    let mut v: Vec<String> = Vec::new();
    v.push(".config".to_owned());
    v.push("archmie".to_owned());
    v.push("commands.json".to_owned());
    v
}

/// The message reported when the per-user base directory cannot be found.
pub fn home_unavailable_message() -> (r: String)
    ensures
        r@ == "Não foi possível encontrar o diretório home"@,
{
    "Não foi possível encontrar o diretório home".to_owned()
}

/// Decide a load from the stored text, if any: a stored catalog is parsed
/// as it stands, an absent one is replaced by the default catalog together
/// with the exact text to persist for it.
pub fn plan_load(contents: Option<&str>) -> (r: Result<LoadPlan, String>)
    ensures
        match contents {
            Option::None => r matches Ok(p) && p matches LoadPlan::InitDefault(c, text) && c@
                == default_commands_spec() && text@ == render_catalog(default_commands_spec()),
            Option::Some(s) => match sp_catalog(s@) {
                Some(cv) => r matches Ok(p) && p matches LoadPlan::UseStored(c) && c@ == cv,
                None => r is Err,
            },
        },
{
    match contents {
        Option::None => {
            let c = get_default_commands();
            let text = render_commands_file(&c);
            Ok(LoadPlan::InitDefault(c, text))
        },
        Option::Some(s) => match parse_commands_file(s) {
            Ok(c) => Ok(LoadPlan::UseStored(c)),
            Err(m) => Err(m),
        },
    }
}

} // verus!
