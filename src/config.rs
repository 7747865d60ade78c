use vstd::prelude::*;
use crate::search::{search, search_case_insensitive, search_case_insensitive_result, search_result, views};

verus! {

/// What a run searches for, and where, and how.
pub struct Config {
    pub query: String,
    pub filename: String,
    pub case_sensitive_search: bool,
}

/// Why a command line gives no `Config`: it has fewer than two arguments
/// after the program name.
#[derive(Debug, Clone, Copy, PartialEq, Eq, Structural)]
pub enum ArgumentError {
    MissingQuery,
    MissingFilename,
}

impl ArgumentError {
    /// A line for the user that names the missing argument.
    pub fn message(&self) -> (r: &'static str)
        ensures
            *self == ArgumentError::MissingQuery ==> r@ == "Incomplete arguments: didn't get a query string"@,
            *self == ArgumentError::MissingFilename ==> r@ == "Incomplete arguments: didn't get a filename"@,
    {
        match self {
            ArgumentError::MissingQuery => "Incomplete arguments: didn't get a query string",
            ArgumentError::MissingFilename => "Incomplete arguments: didn't get a filename",
        }
    }
}

impl Config {
    /// Reads a `Config` from the command line `args`, program name first, then
    /// the query and the file name; further arguments are ignored. The search
    /// is case-sensitive unless `case_insensitive_requested`.
    pub fn new(args: &[String], case_insensitive_requested: bool) -> (r: Result<Config, ArgumentError>)
        ensures
            args@.len() < 2 <==> r == Err::<Config, ArgumentError>(ArgumentError::MissingQuery),
            args@.len() == 2 <==> r == Err::<Config, ArgumentError>(ArgumentError::MissingFilename),
            args@.len() >= 3 <==> r is Ok,
            r matches Ok(cfg) ==> {
                &&& cfg.query@ == args@[1]@
                &&& cfg.filename@ == args@[2]@
                &&& cfg.case_sensitive_search == !case_insensitive_requested
            },
    {
        if args.len() < 2 {
            return Err(ArgumentError::MissingQuery);
        }
        if args.len() < 3 {
            return Err(ArgumentError::MissingFilename);
        }
        Ok(Config {
            query: args[1].clone(),
            filename: args[2].clone(),
            case_sensitive_search: !case_insensitive_requested,
        })
    }

    /// The lines of `contents` that match the query, in the mode this
    /// configuration asks for.
    pub fn search_in<'a>(&self, contents: &'a str) -> (r: Vec<&'a str>)
        ensures
            views(r@) == if self.case_sensitive_search {
                search_result(self.query@, contents@)
            } else {
                search_case_insensitive_result(self.query@, contents@)
            },
    {
        if self.case_sensitive_search {
            search(self.query.as_str(), contents)
        } else {
            search_case_insensitive(self.query.as_str(), contents)
        }
    }
}

} // verus!
