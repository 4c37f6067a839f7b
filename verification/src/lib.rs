//! Verified core of a one-shot workspace backup tool.
//!
//! The library holds the logic that can be checked: the persisted session
//! record and its codec, the cookie-header grammar used to carry and recover
//! the session token, the request bodies and response classification of the
//! four remote operations, and the orchestrator state machine that drives a
//! run from session resolution to the downloaded artifact. The surrounding
//! binary performs the file and network I/O and feeds the outcomes back in
//! as plain values.
use vstd::prelude::*;

pub mod api_client;
pub mod configuration_service;
pub mod json_text;
pub mod orchestrator;

verus! {

/// Inputs of one backup run: where the archive goes, which space to export,
/// and the credentials used when no live session token is at hand.
#[derive(Debug, PartialEq, Eq)]
pub struct Config {
    pub output_dir: String,
    pub space_id: String,
    pub email: String,
    pub password: String,
}

impl Config {
    /// Builds the run configuration from the positional arguments (the first
    /// entry is the program name) and the two credential values. Each missing
    /// piece is reported with its own message.
    pub fn build(args: Vec<String>, email: Option<String>, password: Option<String>) -> (r: Result<
        Config,
        &'static str,
    >)
        ensures
            match r {
                Ok(c) => {
                    &&& args@.len() >= 3
                    &&& email is Some
                    &&& password is Some
                    &&& c.output_dir == args@[1]
                    &&& c.space_id == args@[2]
                    &&& c.email == email->Some_0
                    &&& c.password == password->Some_0
                },
                Err(m) => {
                    ||| args@.len() < 2 && m@ == "Output directory argument missing"@
                    ||| args@.len() == 2 && m@ == "Space ID argument missing"@
                    ||| args@.len() >= 3 && email is None && m@ == "NOTION_EMAIL env missing"@
                    ||| args@.len() >= 3 && email is Some && password is None && m@
                        == "NOTION_PASSWORD env missing"@
                },
            },
    {
        if args.len() < 2 {
            return Err("Output directory argument missing");
        }
        if args.len() < 3 {
            return Err("Space ID argument missing");
        }
        let email = match email {
            Some(value) => value,
            None => {
                return Err("NOTION_EMAIL env missing");
            },
        };
        let password = match password {
            Some(value) => value,
            None => {
                return Err("NOTION_PASSWORD env missing");
            },
        };
        let output_dir = args[1].clone();
        let space_id = args[2].clone();
        Ok(Config { output_dir, space_id, email, password })
    }
}

} // verus!
