//! The first line of a request: a method and a request target, the first two
//! blank-delimited tokens of the line.

use vstd::prelude::*;
use vstd::string::*;
use crate::text::{lemma_run_length_bounds, run_length, scan_run};

verus! {

/// `s` without the blanks it starts with.
pub open spec fn skip_blanks(s: Seq<char>) -> Seq<char> {
    s.skip(run_length(s, true))
}

/// The token that `s` starts with: its characters up to the first blank.
pub open spec fn leading_token(s: Seq<char>) -> Seq<char> {
    s.take(run_length(s, false))
}

/// What follows the token that `s` starts with.
pub open spec fn after_token(s: Seq<char>) -> Seq<char> {
    s.skip(run_length(s, false))
}

/// The method token of a request line; empty where the line holds no token.
pub open spec fn method_token(line: Seq<char>) -> Seq<char> {
    leading_token(skip_blanks(line))
}

/// The target token of a request line; empty where the line holds one token
/// or none.
pub open spec fn target_token(line: Seq<char>) -> Seq<char> {
    leading_token(skip_blanks(after_token(skip_blanks(line))))
}

/// Method and request target of a request line.
pub struct HttpInputStream {
    pub method: String,
    pub relative_path: String,
}

impl HttpInputStream {
    /// Reads the first two tokens of a request line. A line with fewer than
    /// two tokens is malformed and gives `None`.
    pub fn parse(line: &str) -> (r: Option<HttpInputStream>)
        ensures
            r is Some <==> target_token(line@).len() > 0,
            r is Some ==> r->Some_0.method@ == method_token(line@) && r->Some_0.relative_path@
                == target_token(line@),
    {
        proof {
            lemma_run_length_bounds(line@, true);
            lemma_run_length_bounds(skip_blanks(line@), false);
            lemma_run_length_bounds(after_token(skip_blanks(line@)), true);
            lemma_run_length_bounds(skip_blanks(after_token(skip_blanks(line@))), false);
        }
        let n: usize = line.unicode_len();
        let a: usize = scan_run(line, true);
        let from_method = line.substring_char(a, n);
        assert(from_method@ =~= skip_blanks(line@));
        let n1: usize = from_method.unicode_len();
        let b: usize = scan_run(from_method, false);
        let method = from_method.substring_char(0, b);
        assert(method@ =~= method_token(line@));
        let after_method = from_method.substring_char(b, n1);
        assert(after_method@ =~= after_token(skip_blanks(line@)));
        let n2: usize = after_method.unicode_len();
        let c: usize = scan_run(after_method, true);
        let from_target = after_method.substring_char(c, n2);
        assert(from_target@ =~= skip_blanks(after_token(skip_blanks(line@))));
        let d: usize = scan_run(from_target, false);
        let target = from_target.substring_char(0, d);
        assert(target@ =~= target_token(line@));
        if d == 0 {
            return None;
        }
        Some(
            HttpInputStream {
                method: String::from_str(method),
                relative_path: String::from_str(target),
            },
        )
    }
}

} // verus!
