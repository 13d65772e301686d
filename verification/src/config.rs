use vstd::prelude::*;

verus! {

/// A run configuration: the query string, the path of the source file, and
/// whether matching ignores case. Immutable once built.
pub struct Parser {
    pub query: String,
    pub source: String,
    pub ignore_case: bool,
}

impl Parser {
    /// Builds a configuration from the full argument list, whose first
    /// element is the program name and is skipped: the next argument is the
    /// query, the one after it the source path. The case toggle is a plain
    /// value here; the caller derives it from the presence of the
    /// `IGNORE_CASE` environment variable.
    ///
    /// Fails with a distinct message for each missing argument, and only
    /// when one is missing.
    pub fn build(args: Vec<String>, ignore_case: bool) -> (r: Result<Parser, &'static str>)
        ensures
            args@.len() >= 3 ==> (match r {
                Ok(p) => p.query@ == args@[1]@ && p.source@ == args@[2]@ && p.ignore_case
                    == ignore_case,
                Err(_) => false,
            }),
            args@.len() < 2 ==> (match r {
                Ok(_) => false,
                Err(m) => m@ == "Error: Query not provided"@,
            }),
            args@.len() == 2 ==> (match r {
                Ok(_) => false,
                Err(m) => m@ == "Error: Source not provided"@,
            }),
    {
        if args.len() < 2 {
            return Err("Error: Query not provided");
        }
        if args.len() < 3 {
            return Err("Error: Source not provided");
        }
        let query: String = args[1].clone();
        let source: String = args[2].clone();
        Ok(Parser { query, source, ignore_case })
    }
}

} // verus!
