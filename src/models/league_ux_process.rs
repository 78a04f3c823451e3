//! The companion's user-interface process as a process query reports it, with each
//! argument in its own pair of quotes.
use vstd::prelude::*;

use crate::models::errors::LcuHelperError;
use crate::models::lcu_process::wmic_marker;
use crate::text::{
    chars_of,
    contains,
    find_from,
    find_from_exec,
    first_piece,
    first_piece_bounds,
    lemma_find_from_bounds,
    trim_white,
    trim_white_bounds,
};

verus! {

/// The user-interface process and its quoted command line.
#[derive(Debug)]
pub struct LeagueClientUxProcess {
    output: String,
}

/// The separator between quoted arguments.
pub open spec fn quoted_separator() -> Seq<char> {
    "\" \""@
}

/// The value of the quoted argument that starts with `argument`: the first piece between
/// quoted-argument separators that starts with `argument`, without `argument` and without
/// its closing quote when it still has one (only the last argument does).
pub open spec fn quoted_argument_value_of(data: Seq<char>, argument: Seq<char>) -> Option<
    Seq<char>,
> {
    match first_piece(data, quoted_separator(), argument) {
        Some(piece) => {
            let rest = piece.skip(argument.len() as int);
            if rest.len() > 0 && rest.last() == '"' {
                Some(rest.drop_last())
            } else {
                Some(rest)
            }
        },
        None => None,
    }
}

/// The command line in a process-query report: the trimmed text from the marker on, when it
/// names an install directory.
pub open spec fn quoted_command_line_of(report: Seq<char>) -> Option<Seq<char>> {
    match find_from(report, wmic_marker(), 0) {
        Some(i) => {
            let line = trim_white(report.subrange(i, report.len() as int));
            if contains(line, "--install-directory="@) {
                Some(line)
            } else {
                None
            }
        },
        None => None,
    }
}

impl View for LeagueClientUxProcess {
    type V = Seq<char>;

    closed spec fn view(&self) -> Seq<char> {
        self.output@
    }
}

impl LeagueClientUxProcess {
    /// The process with the quoted command line `output`.
    pub fn new(output: String) -> (r: Self)
        ensures
            r@ == output@,
    {
        LeagueClientUxProcess { output }
    }

    /// The process whose command line a process-query report holds; fails when the report
    /// holds none that names an install directory.
    pub fn from_report(report: &str) -> (r: Result<Self, LcuHelperError>)
        ensures
            match quoted_command_line_of(report@) {
                Some(line) => r matches Ok(p) && p@ == line,
                None => r == Err::<Self, LcuHelperError>(LcuHelperError::FailedToFindLeagueProcess),
            },
    {
        let cs = chars_of(report);
        let marker = chars_of("\r\r\n\"");
        let option = chars_of("--install-directory=");
        proof {
            reveal_strlit("\r\r\n\"");
        }
        match find_from_exec(&cs, &marker, 0) {
            Some(i) => {
                proof {
                    lemma_find_from_bounds(cs@, marker@, 0);
                }
                let (a, b) = trim_white_bounds(&cs, i, cs.len());
                let line = report.substring_char(a, b);
                let lcs = chars_of(line);
                if find_from_exec(&lcs, &option, 0).is_some() {
                    Ok(LeagueClientUxProcess { output: String::from_str(line) })
                } else {
                    Err(LcuHelperError::FailedToFindLeagueProcess)
                }
            },
            None => Err(LcuHelperError::FailedToFindLeagueProcess),
        }
    }

    /// The value of the quoted argument of this process's command line that starts with
    /// `argument`.
    pub fn get_argument_value(&self, argument: &str) -> (r: Option<&str>)
        ensures
            match quoted_argument_value_of(self@, argument@) {
                Some(v) => r matches Some(x) && x@ == v,
                None => r is None,
            },
    {
        let data = self.output.as_str();
        let cs = chars_of(data);
        let sep = chars_of("\" \"");
        let arg = chars_of(argument);
        proof {
            reveal_strlit("\" \"");
        }
        match first_piece_bounds(&cs, &sep, &arg) {
            Some((a, b)) => {
                let start = a + arg.len();
                proof {
                    assert(cs@.subrange(a as int, b as int).skip(arg@.len() as int) =~= cs@.subrange(
                        start as int,
                        b as int,
                    ));
                }
                if b > start && cs[b - 1] == '"' {
                    proof {
                        assert(cs@.subrange(start as int, b as int).drop_last() =~= cs@.subrange(
                            start as int,
                            b - 1,
                        ));
                    }
                    Some(data.substring_char(start, b - 1))
                } else {
                    Some(data.substring_char(start, b))
                }
            },
            None => None,
        }
    }
}

} // verus!
