//! Choosing the model provider of the CLI: `--preset` and `--model` exclude each
//! other; `--model echo` picks the offline echo provider; anything else is resolved
//! from the configuration into a real provider.

use vstd::prelude::*;

use crate::text::str_eq;

verus! {

/// The error when both `--preset` and `--model` are given.
pub const PRESET_MODEL_EXCLUSIVE: &'static str = "--preset 与 --model 互斥，只能二选一";

/// The offline provider that answers each message with `echo: <message>`.
pub struct EchoProvider {}

impl EchoProvider {
    /// The echo provider.
    pub fn new() -> (p: Self) {
        EchoProvider {}
    }

    /// Its model name, `echo`.
    pub fn default_model(&self) -> (r: &'static str)
        ensures
            r@ == "echo"@,
    {
        "echo"
    }

    /// Its reply to `message`.
    pub fn reply(&self, message: &str) -> (r: String)
        ensures
            r@ == "echo: "@ + message@,
    {
        let mut s = String::new();
        s.append("echo: ");
        s.append(message);
        s
    }
}

/// The provider the flags select.
pub enum ProviderSelection {
    /// The offline echo provider.
    Echo(EchoProvider),
    /// A provider resolved from the configuration at `config_path` (the default
    /// config without one), with the named preset or the model override.
    Configured { config_path: Option<String>, preset: Option<String>, model: Option<String> },
}

/// An optional borrowed string as an owned one.
fn owned(o: Option<&str>) -> (r: Option<String>)
    ensures
        crate::bus::opt_view(r) == crate::paths::opt_str(o),
{
    match o {
        Some(s) => Some(s.to_owned()),
        None => None,
    }
}

/// The provider for the flags: an error when both `preset` and `model` are given;
/// the echo provider for the model `echo`; else the configured provider to resolve.
pub fn build_provider(config_path: Option<&str>, preset: Option<&str>, model: Option<&str>) -> (r: Result<ProviderSelection, String>)
    ensures
        preset is Some && model is Some ==> (r matches Err(e) && e@ == PRESET_MODEL_EXCLUSIVE@),
        !(preset is Some && model is Some) ==> match r {
            Ok(ProviderSelection::Echo(_)) => model matches Some(m) && m@ == "echo"@,
            Ok(ProviderSelection::Configured { config_path: c, preset: p, model: m }) => {
                &&& !(model matches Some(x) && x@ == "echo"@)
                &&& crate::bus::opt_view(c) == crate::paths::opt_str(config_path)
                &&& crate::bus::opt_view(p) == crate::paths::opt_str(preset)
                &&& crate::bus::opt_view(m) == crate::paths::opt_str(model)
            },
            Err(_) => false,
        },
{
    if preset.is_some() && model.is_some() {
        return Err(PRESET_MODEL_EXCLUSIVE.to_owned());
    }
    let is_echo = match model {
        Some(m) => str_eq(m, "echo"),
        None => false,
    };
    if is_echo {
        return Ok(ProviderSelection::Echo(EchoProvider::new()));
    }
    Ok(ProviderSelection::Configured { config_path: owned(config_path), preset: owned(preset), model: owned(model) })
}

} // verus!
