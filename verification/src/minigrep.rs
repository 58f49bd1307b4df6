//! A minigrep-style configuration: a compiled regular-expression query
//! plus a file path, and the search that keeps the lines the query
//! matches. The regular-expression engine is an outside crate; the line
//! splitting and filtering around it are verified.

use regex::Regex;
use vstd::prelude::*;
use vstd::string::StrSliceExecFns;
use vstd::string::StringExecFns;

verus! {

/// Specification of [`regex::Regex`], a compiled regular expression.
#[verifier::external_type_specification]
#[verifier::external_body]
pub struct ExRegex(Regex);

/// The pattern text a compiled regular expression was built from.
pub uninterp spec fn regex_pattern(re: Regex) -> Seq<char>;

/// Whether the pattern matches anywhere in the text; the engine decides,
/// as a function of the pattern and the text alone.
pub uninterp spec fn regex_matches(pattern: Seq<char>, text: Seq<char>) -> bool;

/// Relies on regex's `Regex::new`: a successfully compiled query
/// remembers the pattern text it was built from; a rejected pattern
/// yields the engine's error text.
#[verifier::external_body]
fn regex_new(pattern: &str) -> (result: Result<Regex, String>)
    ensures
        match result {
            Ok(re) => regex_pattern(re) == pattern@,
            Err(_) => true,
        },
{
    regex::Regex::new(pattern).map_err(|e| e.to_string())
}

/// Relies on regex's `Regex::is_match`: whether the query matches
/// anywhere in the text. Queries here are compiled by [`regex_new`] with
/// the engine's default settings, under which the pattern determines the
/// matcher, so the answer is a function of the pattern and the text.
#[verifier::external_body]
fn regex_is_match(re: &Regex, text: &str) -> (found: bool)
    ensures
        found == regex_matches(regex_pattern(*re), text@),
{
    re.is_match(text)
}

/// `cur` with one trailing carriage return removed, as happens to a line
/// cut at a carriage-return-and-line-feed ending.
pub open spec fn strip_cr(cur: Seq<char>) -> Seq<char> {
    if cur.len() > 0 && cur.last() == '\r' {
        cur.drop_last()
    } else {
        cur
    }
}

/// The lines of `s`, given that the characters of `cur` have already
/// been read off the current line: a line feed ends a line (dropping a
/// carriage return just before it), and a last line ends at the end of
/// the text unless it is empty.
pub open spec fn lines_from(s: Seq<char>, cur: Seq<char>) -> Seq<Seq<char>>
    decreases s.len(),
{
    if s.len() == 0 {
        if cur.len() == 0 {
            Seq::empty()
        } else {
            seq![cur]
        }
    } else if s.first() == '\n' {
        seq![strip_cr(cur)] + lines_from(s.drop_first(), Seq::empty())
    } else {
        lines_from(s.drop_first(), cur.push(s.first()))
    }
}

/// The lines of `s`, split at line feeds and carriage-return-and-line-
/// feed pairs; a trailing line ending opens no further line.
pub open spec fn lines_spec(s: Seq<char>) -> Seq<Seq<char>> {
    lines_from(s, Seq::empty())
}

/// Splits `contents` into its lines, exactly as [`lines_spec`] describes.
pub fn split_lines(contents: &str) -> (lines: Vec<String>)
    ensures
        lines@.map_values(|l: String| l@) == lines_spec(contents@),
{
    let n = contents.unicode_len();
    let mut lines: Vec<String> = Vec::new();
    let mut start: usize = 0;
    let mut pos: usize = 0;
    proof {
        assert(contents@.skip(0) =~= contents@);
        assert(contents@.subrange(0, 0) =~= Seq::<char>::empty());
        assert(lines@.map_values(|l: String| l@) =~= Seq::<Seq<char>>::empty());
    }
    while pos < n
        invariant
            start <= pos <= n == contents@.len(),
            lines@.map_values(|l: String| l@) + lines_from(
                contents@.skip(pos as int),
                contents@.subrange(start as int, pos as int),
            ) == lines_spec(contents@),
        decreases n - pos,
    {
        let c = contents.get_char(pos);
        if c == '\n' {
            let ghost cur = contents@.subrange(start as int, pos as int);
            let line_end = if pos > start && contents.get_char(pos - 1) == '\r' {
                pos - 1
            } else {
                pos
            };
            let line = contents.substring_char(start, line_end);
            proof {
                assert(line@ =~= strip_cr(cur));
            }
            let ghost before = lines@.map_values(|l: String| l@);
            lines.push(line.to_owned());
            proof {
                assert(lines@.map_values(|l: String| l@) =~= before + seq![strip_cr(cur)]);
                assert(contents@.skip(pos as int).drop_first() =~= contents@.skip(pos + 1));
                assert(contents@.subrange(pos + 1, pos + 1) =~= Seq::<char>::empty());
            }
            start = pos + 1;
        } else {
            proof {
                assert(contents@.skip(pos as int).drop_first() =~= contents@.skip(pos + 1));
                assert(contents@.subrange(start as int, pos as int).push(contents@[pos as int])
                    =~= contents@.subrange(start as int, pos + 1));
            }
        }
        pos += 1;
    }
    if start < n {
        let line = contents.substring_char(start, n);
        lines.push(line.to_owned());
    }
    proof {
        assert(contents@.skip(n as int) =~= Seq::<char>::empty());
        assert(lines@.map_values(|l: String| l@) =~= lines_spec(contents@));
    }
    lines
}

/// The lines among `lines` that the pattern matches, in order.
pub open spec fn matching_lines(pattern: Seq<char>, lines: Seq<Seq<char>>) -> Seq<Seq<char>>
    decreases lines.len(),
{
    if lines.len() == 0 {
        Seq::empty()
    } else {
        (if regex_matches(pattern, lines.first()) {
            seq![lines.first()]
        } else {
            Seq::empty()
        }) + matching_lines(pattern, lines.drop_first())
    }
}

/// Config struct for searching for lines in a string containing the
/// specified query.
#[derive(Debug)]
pub struct Config {
    query: Regex,
    path: String,
}

impl Config {
    /// The compiled query's pattern text, for contracts.
    pub closed spec fn spec_query_pattern(&self) -> Seq<char> {
        regex_pattern(self.query)
    }

    /// The file path, for contracts.
    pub closed spec fn spec_path(&self) -> Seq<char> {
        self.path@
    }

    /// Attempts to create a new `Config` with a query based on the
    /// arguments passed: the first argument compiles into the query and
    /// the remaining arguments join into the path.
    ///
    /// Fails when there is no argument at all, or when the engine
    /// rejects the pattern.
    pub fn new(args: Vec<String>) -> (result: Result<Config, String>)
        ensures
            args@.len() == 0 ==> result is Err,
            match result {
                Ok(config) => args@.len() >= 1 && config.spec_query_pattern() == args@[0]@
                    && config.spec_path() == crate::concat_all(
                    args@.skip(1).map_values(|a: String| a@),
                ),
                Err(_) => true,
            },
    {
        if args.len() == 0 {
            return Err("invalid arguments. expected a query and file path.".to_owned());
        }
        let query = match regex_new(args[0].as_str()) {
            Ok(query) => query,
            Err(err) => {
                let mut message = String::new();
                message.append("invalid arguments. ");
                message.append(err.as_str());
                return Err(message);
            },
        };
        let mut path = String::new();
        let mut i: usize = 1;
        let ghost rest = args@.skip(1).map_values(|a: String| a@);
        proof {
            assert(rest.skip(0) =~= rest);
            assert(path@ + crate::concat_all(rest) =~= crate::concat_all(rest));
        }
        while i < args.len()
            invariant
                1 <= i <= args@.len(),
                rest == args@.skip(1).map_values(|a: String| a@),
                path@ + crate::concat_all(rest.skip(i - 1)) == crate::concat_all(rest),
            decreases args@.len() - i,
        {
            proof {
                assert(rest.skip(i - 1).first() == args@[i as int]@);
                assert(rest.skip(i - 1).drop_first() =~= rest.skip(i as int));
            }
            path.append(args[i].as_str());
            proof {
                assert(path@ + crate::concat_all(rest.skip(i as int)) =~= crate::concat_all(rest));
            }
            i += 1;
        }
        proof {
            assert(rest.skip(args@.len() - 1) =~= Seq::<Seq<char>>::empty());
            assert(path@ =~= crate::concat_all(rest));
        }
        Ok(Config { query, path })
    }

    /// Searches the passed text for its lines matching the query,
    /// exactly as [`matching_lines`] describes over the text's lines.
    pub fn search(&self, contents: &str) -> (found: Vec<String>)
        ensures
            found@.map_values(|l: String| l@) == matching_lines(
                self.spec_query_pattern(),
                lines_spec(contents@),
            ),
    {
        let lines = split_lines(contents);
        let ghost all = lines@.map_values(|l: String| l@);
        let mut found: Vec<String> = Vec::new();
        let mut i: usize = 0;
        proof {
            assert(all.skip(0) =~= all);
            assert(found@.map_values(|l: String| l@) + matching_lines(
                self.spec_query_pattern(),
                all,
            ) =~= matching_lines(self.spec_query_pattern(), all));
        }
        while i < lines.len()
            invariant
                i <= lines@.len(),
                all == lines@.map_values(|l: String| l@),
                all == lines_spec(contents@),
                found@.map_values(|l: String| l@) + matching_lines(
                    self.spec_query_pattern(),
                    all.skip(i as int),
                ) == matching_lines(self.spec_query_pattern(), all),
            decreases lines@.len() - i,
        {
            proof {
                assert(all.skip(i as int).first() == lines@[i as int]@);
                assert(all.skip(i as int).drop_first() =~= all.skip(i + 1));
            }
            if regex_is_match(&self.query, lines[i].as_str()) {
                let line = lines[i].clone();
                found.push(line);
            }
            proof {
                assert(found@.map_values(|l: String| l@) + matching_lines(
                    self.spec_query_pattern(),
                    all.skip(i + 1),
                ) =~= matching_lines(self.spec_query_pattern(), all));
            }
            i += 1;
        }
        proof {
            assert(all.skip(lines@.len() as int) =~= Seq::<Seq<char>>::empty());
            assert(found@.map_values(|l: String| l@) =~= matching_lines(
                self.spec_query_pattern(),
                all,
            ));
        }
        found
    }

    /// A reference to the query the `Config` was created with.
    pub fn query(&self) -> (q: &Regex)
        ensures
            regex_pattern(*q) == self.spec_query_pattern(),
    {
        &self.query
    }

    /// The file path the `Config` was created with.
    pub fn path(&self) -> (p: &str)
        ensures
            p@ == self.spec_path(),
    {
        self.path.as_str()
    }
}

} // verus!
