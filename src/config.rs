//! What one search run is asked to do, read from its positional arguments.
use vstd::prelude::*;
use vstd::string::StrSliceExecFns;

use crate::search::{
    matching_lines, matching_lines_ignoring_case, search, search_case_insensitive,
};
use crate::text::{string_texts, texts};

verus! {

/// An argument that begins with a hyphen is a flag.
pub open spec fn is_flag(arg: Seq<char>) -> bool {
    arg.len() > 0 && arg[0] == '-'
}

/// The flags among `args`, in their order.
pub open spec fn flags_of(args: Seq<Seq<char>>) -> Seq<Seq<char>> {
    args.filter(|a: Seq<char>| is_flag(a))
}

/// One search: the query, the file to read, whether letter case counts,
/// and the flags given after the two required arguments. Flags are recorded
/// only: none of them changes a setting.
pub struct Config {
    pub query: String,
    pub filename: String,
    pub case_sensitive: bool,
    pub flags: Vec<String>,
}

/// Whether `arg` begins with a hyphen.
pub fn starts_with_hyphen(arg: &str) -> (r: bool)
    ensures
        r == is_flag(arg@),
{
    if arg.is_empty() {
        false
    } else {
        arg.get_char(0) == '-'
    }
}

/// The flags among the arguments from position `start` on, in their order.
pub fn collect_flags(args: &[String], start: usize) -> (r: Vec<String>)
    requires
        start <= args@.len(),
    ensures
        string_texts(r@) == flags_of(string_texts(args@).skip(start as int)),
{
    let ghost all = string_texts(args@).skip(start as int);
    let mut flags: Vec<String> = Vec::new();
    let mut i: usize = start;
    while i < args.len()
        invariant
            start <= i <= args@.len(),
            all == string_texts(args@).skip(start as int),
            string_texts(flags@) == flags_of(all.take(i - start)),
        decreases args@.len() - i,
    {
        let ghost prev = flags@;
        let found = starts_with_hyphen(args[i].as_str());
        if found {
            flags.push(args[i].clone());
        }
        proof {
            reveal(Seq::filter);
            let upto = all.take(i + 1 - start);
            assert(upto.drop_last() =~= all.take(i - start));
            assert(upto.last() == args@[i as int]@);
            if found {
                assert(string_texts(flags@) =~= string_texts(prev).push(args@[i as int]@));
            } else {
                assert(string_texts(flags@) =~= string_texts(prev));
            }
            assert(string_texts(flags@) == flags_of(upto));
        }
        i = i + 1;
    }
    proof {
        assert(all.take(i - start) =~= all);
    }
    flags
}

impl Config {
    /// Reads `args` as: a program name, the query, the file name, then any
    /// number of further arguments, of which those that begin with a hyphen
    /// are kept as flags. Fails when the query or the file name is missing.
    /// Letter case counts.
    pub fn new(args: &[String]) -> (r: Result<Config, &'static str>)
        ensures
            r is Err <==> args@.len() < 3,
            r matches Err(e) ==> e@ == "not enough arguments"@,
            r matches Ok(c) ==> {
                &&& c.query@ == args@[1]@
                &&& c.filename@ == args@[2]@
                &&& c.case_sensitive
                &&& string_texts(c.flags@) == flags_of(string_texts(args@).skip(3))
            },
    {
        if args.len() < 3 {
            return Err("not enough arguments");
        }
        let query = args[1].clone();
        let filename = args[2].clone();
        let flags = collect_flags(args, 3);
        Ok(Config { query, filename, case_sensitive: true, flags })
    }

    /// The lines of `contents` that match the query, taking letter case
    /// into account or not as the configuration says.
    pub fn find_matches<'a>(&self, contents: &'a str) -> (r: Vec<&'a str>)
        ensures
            self.case_sensitive ==> texts(r@) == matching_lines(self.query@, contents@),
            !self.case_sensitive ==> texts(r@) == matching_lines_ignoring_case(
                self.query@,
                contents@,
            ),
    {
        if self.case_sensitive {
            search(self.query.as_str(), contents)
        } else {
            search_case_insensitive(self.query.as_str(), contents)
        }
    }
}

} // verus!
