//! The running companion process: its launch command line and install directory, and the
//! ways each host reports them.
use vstd::prelude::*;

use crate::errors::LcuDriverError;
use crate::text::{
    after_last,
    after_last_start,
    chars_of,
    contains,
    find_from,
    find_from_exec,
    first_piece,
    first_piece_bounds,
    lemma_first_piece_free,
    lemma_strip_prefix_all_suffix,
    occurs_at,
    lemma_find_from_bounds,
    lemma_subrange_drop_last,
    replace_all,
    replace_all_string,
    strip_prefix_all,
    strip_prefix_all_from,
    trim_char,
    trim_char_bounds,
    trim_white,
    trim_white_bounds,
};

verus! {

/// What the driver knows of the companion process.
pub struct ProcessInfo {
    pub command_line: Seq<char>,
    pub install_directory: Seq<char>,
}

/// The companion process, as found on the host.
#[derive(Debug, Eq, PartialEq, Clone)]
pub struct LcuProcess {
    output: String,
    install_directory: String,
}

/// The separator of space-delimited command-line options.
pub open spec fn option_separator() -> Seq<char> {
    " --"@
}

/// The value of the option that starts with `argument` on a space-delimited command line:
/// the first piece between option separators that starts with `argument`, with every
/// leading copy of `argument` removed.
pub open spec fn argument_value_of(data: Seq<char>, argument: Seq<char>) -> Option<Seq<char>> {
    match first_piece(data, option_separator(), argument) {
        Some(piece) => Some(strip_prefix_all(piece, argument)),
        None => None,
    }
}

/// The install directory that a command line names.
pub open spec fn install_directory_of(command_line: Seq<char>) -> Option<Seq<char>> {
    argument_value_of(command_line, "install-directory="@)
}

/// `rest` appended to the path `base` as a Unix path: an absolute `rest` replaces `base`,
/// otherwise one `/` separates the two unless `base` is empty or already ends with one.
pub open spec fn join_path_of(base: Seq<char>, rest: Seq<char>) -> Seq<char> {
    if rest.len() > 0 && rest[0] == '/' {
        rest
    } else if base.len() == 0 || base.last() == '/' {
        base + rest
    } else {
        base + seq!['/'] + rest
    }
}

/// The host path of a guest install directory under a compatibility-layer prefix: the prefix
/// is the trimmed text after the last `|` of the prefix listing, and the guest path has its
/// backslashes turned into slashes and its `C:/` into `drive_c/`.
pub open spec fn prefixed_install_directory(listing: Seq<char>, guest: Seq<char>) -> Seq<char> {
    join_path_of(
        trim_white(after_last(listing, '|')),
        replace_all(replace_all(guest, "\\"@, "/"@), "C:/"@, "drive_c/"@),
    )
}

/// The marker before the command line in a process-query report.
pub open spec fn wmic_marker() -> Seq<char> {
    "\r\r\n\""@
}

/// `s[start..]` split at each space, each word stripped of its surrounding quotes, and the
/// words joined again by single spaces.
pub open spec fn unquoted_words_from(s: Seq<char>, start: int) -> Seq<char>
    decreases s.len() + 1 - start,
{
    if start < 0 || start > s.len() {
        Seq::empty()
    } else {
        match find_from(s, seq![' '], start) {
            Some(i) => {
                if start <= i && i + 1 <= s.len() {
                    trim_char(s.subrange(start, i), '"') + seq![' '] + unquoted_words_from(
                        s,
                        i + 1,
                    )
                } else {
                    Seq::empty()
                }
            },
            None => trim_char(s.subrange(start, s.len() as int), '"'),
        }
    }
}

/// The command line in a process-query report: the trimmed text from the marker on, with
/// each space-separated word unquoted.
pub open spec fn command_line_of_wmic(report: Seq<char>) -> Option<Seq<char>> {
    match find_from(report, wmic_marker(), 0) {
        Some(i) => Some(
            unquoted_words_from(trim_white(report.subrange(i, report.len() as int)), 0),
        ),
        None => None,
    }
}

/// Whether a line names the companion executable together with its install directory.
pub open spec fn wanted_line(line: Seq<char>) -> bool {
    contains(line, "LeagueClientUx"@) && contains(line, "--install-directory="@)
}

/// The first line of `s[start..]` that names the companion executable and its install
/// directory. Lines end at `\n`; a `\r` just before a `\n` is not part of the line.
pub open spec fn first_wanted_line_from(s: Seq<char>, start: int) -> Option<Seq<char>>
    decreases s.len() + 1 - start,
{
    if start < 0 || start >= s.len() {
        None
    } else {
        match find_from(s, seq!['\n'], start) {
            Some(i) => {
                if start <= i && i < s.len() {
                    let raw = s.subrange(start, i);
                    let line = if raw.len() > 0 && raw.last() == '\r' {
                        raw.drop_last()
                    } else {
                        raw
                    };
                    if wanted_line(line) {
                        Some(line)
                    } else {
                        first_wanted_line_from(s, i + 1)
                    }
                } else {
                    None
                }
            },
            None => {
                let line = s.subrange(start, s.len() as int);
                if wanted_line(line) {
                    Some(line)
                } else {
                    None
                }
            },
        }
    }
}

impl View for LcuProcess {
    type V = ProcessInfo;

    closed spec fn view(&self) -> ProcessInfo {
        ProcessInfo { command_line: self.output@, install_directory: self.install_directory@ }
    }
}

impl LcuProcess {
    /// The process whose launch command line is `output`; fails when the command line
    /// names no install directory.
    pub fn new(output: String) -> (r: Result<Self, LcuDriverError>)
        ensures
            match install_directory_of(output@) {
                Some(dir) => r matches Ok(p) && p@.command_line == output@ && p@.install_directory
                    == dir,
                None => r == Err::<Self, LcuDriverError>(LcuDriverError::FailedToFindLeagueProcess),
            },
    {
        let found = Self::argument_value(output.as_str(), "install-directory=");
        match found {
            Some(dir) => {
                let install_directory = String::from_str(dir);
                Ok(LcuProcess { output, install_directory })
            },
            None => Err(LcuDriverError::FailedToFindLeagueProcess),
        }
    }

    /// The same process, with its install directory remapped to `install_directory`.
    pub fn with_install_directory(self, install_directory: String) -> (r: Self)
        ensures
            r@.command_line == self@.command_line,
            r@.install_directory == install_directory@,
    {
        LcuProcess { output: self.output, install_directory }
    }

    pub fn install_directory(&self) -> (r: &str)
        ensures
            r@ == self@.install_directory,
    {
        self.install_directory.as_str()
    }

    /// The launch command line.
    pub fn command_line(&self) -> (r: &str)
        ensures
            r@ == self@.command_line,
    {
        self.output.as_str()
    }

    /// The path of the handshake file in the install directory.
    pub fn lockfile_path(&self) -> (r: String)
        ensures
            r@ == join_path_of(self@.install_directory, "lockfile"@),
    {
        join_path(self.install_directory.as_str(), "lockfile")
    }

    /// The value of the option of the space-delimited command line `data` that starts with
    /// `argument`.
    pub fn argument_value<'a>(data: &'a str, argument: &str) -> (r: Option<&'a str>)
        ensures
            match argument_value_of(data@, argument@) {
                Some(v) => r matches Some(x) && x@ == v,
                None => r is None,
            },
    {
        let cs = chars_of(data);
        let sep = chars_of(" --");
        let arg = chars_of(argument);
        proof {
            reveal_strlit(" --");
        }
        match first_piece_bounds(&cs, &sep, &arg) {
            Some((a, b)) => {
                let start = strip_prefix_all_from(&cs, a, b, &arg);
                Some(data.substring_char(start, b))
            },
            None => None,
        }
    }

    /// The value of the option of this process's command line that starts with `argument`.
    pub fn get_argument_value(&self, argument: &str) -> (r: Option<&str>)
        ensures
            match argument_value_of(self@.command_line, argument@) {
                Some(v) => r matches Some(x) && x@ == v,
                None => r is None,
            },
    {
        Self::argument_value(self.output.as_str(), argument)
    }
}

/// `rest` appended to the path `base`.
pub fn join_path(base: &str, rest: &str) -> (r: String)
    ensures
        r@ == join_path_of(base@, rest@),
{
    proof {
        reveal_strlit("/");
    }
    let rest_is_absolute = rest.unicode_len() > 0 && rest.get_char(0) == '/';
    let n = base.unicode_len();
    if rest_is_absolute {
        String::from_str(rest)
    } else if n == 0 || base.get_char(n - 1) == '/' {
        String::from_str(base).concat(rest)
    } else {
        String::from_str(base).concat("/").concat(rest)
    }
}

/// The command line in a process-query report (space-separated words, each possibly quoted),
/// or `None` when the report holds no command line.
pub fn command_line_from_wmic(report: &str) -> (r: Option<String>)
    ensures
        match command_line_of_wmic(report@) {
            Some(v) => r matches Some(x) && x@ == v,
            None => r is None,
        },
{
    let cs = chars_of(report);
    let marker = chars_of("\r\r\n\"");
    proof {
        reveal_strlit("\r\r\n\"");
    }
    match find_from_exec(&cs, &marker, 0) {
        Some(i) => {
            proof {
                lemma_find_from_bounds(cs@, marker@, 0);
            }
            let (a, b) = trim_white_bounds(&cs, i, cs.len());
            Some(unquoted_words(&cs, report, a, b))
        },
        None => None,
    }
}

/// The words of `s[a..b]`, unquoted and joined by single spaces.
fn unquoted_words(cs: &Vec<char>, s: &str, a: usize, b: usize) -> (r: String)
    requires
        cs@ == s@,
        a <= b <= s@.len(),
    ensures
        r@ == unquoted_words_from(s@.subrange(a as int, b as int), 0),
{
    let ghost t = s@.subrange(a as int, b as int);
    let mut out = String::new();
    let mut start = a;
    loop
        invariant
            cs@ == s@,
            a <= start <= b <= s@.len(),
            t == s@.subrange(a as int, b as int),
            unquoted_words_from(t, 0) == out@ + unquoted_words_from(t, start - a),
        decreases b + 1 - start,
    {
        let ghost k = start - a;
        let next = find_space(cs, start, b);
        match next {
            Some(i) => {
                let (x, y) = trim_char_bounds(cs, start, i, '"');
                let ghost before = out@;
                proof {
                    lemma_find_space(t, s@, a as int, start as int, b as int, i as int);
                    assert(t.subrange(k, i - a) =~= s@.subrange(start as int, i as int));
                }
                out.append(s.substring_char(x, y));
                out.append(" ");
                proof {
                    reveal_strlit(" ");
                    assert(out@ =~= before + s@.subrange(x as int, y as int) + seq![' ']);
                    assert(before + (s@.subrange(x as int, y as int) + seq![' '] + unquoted_words_from(
                        t,
                        i + 1 - a,
                    )) =~= out@ + unquoted_words_from(t, i + 1 - a));
                }
                start = i + 1;
            },
            None => {
                let (x, y) = trim_char_bounds(cs, start, b, '"');
                proof {
                    lemma_find_space(t, s@, a as int, start as int, b as int, -1);
                    assert(t.subrange(k, t.len() as int) =~= s@.subrange(start as int, b as int));
                    assert(unquoted_words_from(t, k) == s@.subrange(x as int, y as int));
                }
                out.append(s.substring_char(x, y));
                return out;
            },
        }
    }
}

/// The first space in `cs[start..b]`.
fn find_space(cs: &Vec<char>, start: usize, b: usize) -> (r: Option<usize>)
    requires
        start <= b <= cs@.len(),
    ensures
        r matches Some(i) ==> start <= i < b && cs@[i as int] == ' ' && forall|j: int|
            start <= j < i ==> cs@[j] != ' ',
        r is None ==> forall|j: int| start <= j < b ==> cs@[j] != ' ',
{
    let mut i = start;
    while i < b
        invariant
            start <= i <= b <= cs@.len(),
            forall|j: int| start <= j < i ==> cs@[j] != ' ',
        decreases b - i,
    {
        if cs[i] == ' ' {
            return Some(i);
        }
        i = i + 1;
    }
    None
}

/// How the first space found in `s[start..b]` shows in `t == s[a..b]`: `i` is its
/// position in `s`, or negative when there is none.
proof fn lemma_find_space(t: Seq<char>, s: Seq<char>, a: int, start: int, b: int, i: int)
    requires
        0 <= a <= start <= b <= s.len(),
        t == s.subrange(a, b),
        i >= 0 ==> start <= i < b && s[i] == ' ' && forall|j: int| start <= j < i ==> s[j] != ' ',
        i < 0 ==> forall|j: int| start <= j < b ==> s[j] != ' ',
    ensures
        i >= 0 ==> find_from(t, seq![' '], start - a) == Some(i - a),
        i < 0 ==> find_from(t, seq![' '], start - a) is None,
    decreases b - start,
{
    let k = start - a;
    if start < b {
        if i == start {
            assert(t.subrange(k, k + 1) =~= seq![' ']);
        } else {
            assert(t.subrange(k, k + 1) != seq![' ']) by {
                assert(t.subrange(k, k + 1)[0] == s[start]);
            }
            lemma_find_space(t, s, a, start + 1, b, i);
        }
    }
}

/// The first line of a process listing that names the companion executable with its install
/// directory.
pub fn command_line_from_ps(listing: &str) -> (r: Option<String>)
    ensures
        match first_wanted_line_from(listing@, 0) {
            Some(v) => r matches Some(x) && x@ == v,
            None => r is None,
        },
{
    let cs = chars_of(listing);
    let exe = chars_of("LeagueClientUx");
    let option = chars_of("--install-directory=");
    let newline = chars_of("\n");
    proof {
        reveal_strlit("\n");
    }
    let n = cs.len();
    let mut start: usize = 0;
    while start < n
        invariant
            n == cs@.len() == listing@.len(),
            cs@ == listing@,
            exe@ == "LeagueClientUx"@,
            option@ == "--install-directory="@,
            newline@ == seq!['\n'],
            start <= n,
            first_wanted_line_from(listing@, 0) == first_wanted_line_from(listing@, start as int),
        decreases n - start,
    {
        let (end, last) = match find_from_exec(&cs, &newline, start) {
            Some(i) => {
                proof {
                    lemma_find_from_bounds(cs@, newline@, start as int);
                }
                (i, false)
            },
            None => (n, true),
        };
        let line_end = if !last && end > start && cs[end - 1] == '\r' {
            end - 1
        } else {
            end
        };
        let line = listing.substring_char(start, line_end);
        let lcs = chars_of(line);
        proof {
            if !last && end > start {
                lemma_subrange_drop_last(listing@, start as int, end as int);
            }
        }
        let has_exe = find_from_exec(&lcs, &exe, 0).is_some();
        let has_option = find_from_exec(&lcs, &option, 0).is_some();
        if has_exe && has_option {
            return Some(String::from_str(line));
        }
        if last {
            return None;
        }
        start = end + 1;
    }
    None
}

/// The host path of the guest install directory `install_directory`, under the prefix that
/// the compatibility layer's prefix listing `listing` names.
pub fn lutris_install_directory(listing: &str, install_directory: &str) -> (r: String)
    ensures
        r@ == prefixed_install_directory(listing@, install_directory@),
{
    let cs = chars_of(listing);
    let from = after_last_start(&cs, '|');
    let (a, b) = trim_white_bounds(&cs, from, cs.len());
    proof {
        reveal_strlit("\\");
        reveal_strlit("C:/");
    }
    let prefix = listing.substring_char(a, b);
    let slashed = replace_all_string(install_directory, "\\", "/");
    let guest = replace_all_string(slashed.as_str(), "C:/", "drive_c/");
    join_path(prefix, guest.as_str())
}

/// Argument extraction stops at the next option: the value found for an argument never
/// holds the option separator ` --`, so no later option becomes part of it.
pub proof fn lemma_argument_value_stops(data: Seq<char>, argument: Seq<char>)
    ensures
        argument_value_of(data, argument) matches Some(v) ==> !contains(v, option_separator()),
{
    let sep = option_separator();
    lemma_first_piece_free(data, sep, argument, 0);
    if let Some(piece) = first_piece(data, sep, argument) {
        let v = strip_prefix_all(piece, argument);
        lemma_strip_prefix_all_suffix(piece, argument);
        let m = piece.len() - v.len();
        lemma_find_from_bounds(v, sep, 0);
        if let Some(j) = find_from(v, sep, 0) {
            assert(v.subrange(j, j + sep.len()) =~= piece.subrange(m + j, m + j + sep.len()));
            assert(occurs_at(piece, sep, m + j));
        }
    }
}

} // verus!
