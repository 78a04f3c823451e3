//! The handshake file that the companion process writes: `name:pid:port:token:protocol`.
use vstd::prelude::*;

use crate::errors::LcuDriverError;
use crate::text::{chars_of, parse_isize, parse_isize_exec};

verus! {

/// The padded, standard-alphabet base64 encoding of the UTF-8 bytes of `text`.
pub uninterp spec fn base64_of(text: Seq<char>) -> Seq<char>;

/// Relies on `base64::encode`, which encodes the bytes it is given with the standard
/// alphabet and padding; it panics only when the encoded length overflows `usize`.
#[verifier::external_body]
fn encode_base64(text: &str) -> (r: String)
    requires
        text@.len() <= usize::MAX / 8,
    ensures
        r@ == base64_of(text@),
{
    base64::encode(text)
}

/// `s` cut at each `c`, as `str::split` cuts it: `n` occurrences give `n + 1` pieces.
pub open spec fn split_char(s: Seq<char>, c: char) -> Seq<Seq<char>>
    decreases s.len(),
{
    if s.len() == 0 {
        seq![Seq::empty()]
    } else {
        let init = split_char(s.drop_last(), c);
        if s.last() == c {
            init.push(Seq::empty())
        } else {
            init.update(init.len() - 1, init.last().push(s.last()))
        }
    }
}

/// The port and the raw token of a handshake file's text, when it has at least four
/// colon-separated fields and its third field is a base-10 integer.
pub open spec fn handshake_fields(contents: Seq<char>) -> Option<(int, Seq<char>)> {
    let fields = split_char(contents, ':');
    if fields.len() >= 4 {
        match parse_isize(fields[2]) {
            Some(port) => Some((port, fields[3])),
            None => None,
        }
    } else {
        None
    }
}

/// The user name the companion application expects in its credentials.
pub open spec fn credential_user() -> Seq<char> {
    "riot:"@
}

/// The bearer credential derived from a raw token.
pub open spec fn credential_of(raw_token: Seq<char>) -> Seq<char> {
    base64_of(credential_user() + raw_token)
}

/// Whether the watcher must rebuild the session, given the handshake text it holds and what
/// a fresh read gave (`None`: the file is gone or unreadable).
pub open spec fn reload_needed(held: Seq<char>, fresh: Option<Seq<char>>) -> bool {
    match fresh {
        Some(text) => text != held,
        None => true,
    }
}

/// What a handshake holds.
pub struct Handshake {
    pub path: Seq<char>,
    pub port: int,
    pub token: Seq<char>,
    pub contents: Seq<char>,
}

/// One session's handshake: where it was read, the port and credential it gives, and its
/// text, kept to tell a rewritten file from the same one.
#[derive(Debug, Clone)]
pub struct Lockfile {
    pub path: String,
    pub port: isize,
    pub token: String,
    contents: String,
}

pub proof fn lemma_split_char_take(s: Seq<char>, c: char, i: int)
    requires
        0 <= i < s.len(),
    ensures
        s.take(i + 1).drop_last() == s.take(i),
        s.take(i + 1).last() == s[i],
{
    assert(s.take(i + 1).drop_last() =~= s.take(i));
}

/// The bounds of the pieces of `s` cut at each `c`.
pub fn split_bounds(s: &Vec<char>, c: char) -> (r: Vec<(usize, usize)>)
    ensures
        r@.len() == split_char(s@, c).len(),
        forall|k: int|
            0 <= k < r@.len() ==> #[trigger] r@[k].0 <= r@[k].1 <= s@.len() && split_char(s@, c)[k]
                == s@.subrange(r@[k].0 as int, r@[k].1 as int),
{
    let n = s.len();
    let mut done: Vec<(usize, usize)> = Vec::new();
    let mut start: usize = 0;
    let mut i: usize = 0;
    proof {
        assert(s@.take(0) =~= Seq::<char>::empty());
        assert(s@.subrange(0, 0) =~= Seq::<char>::empty());
    }
    while i < n
        invariant
            n == s@.len(),
            start <= i <= n,
            split_char(s@.take(i as int), c).len() == done@.len() + 1,
            split_char(s@.take(i as int), c).last() == s@.subrange(start as int, i as int),
            forall|k: int|
                0 <= k < done@.len() ==> #[trigger] done@[k].0 <= done@[k].1 <= s@.len()
                    && split_char(s@.take(i as int), c)[k] == s@.subrange(
                    done@[k].0 as int,
                    done@[k].1 as int,
                ),
        decreases n - i,
    {
        proof {
            lemma_split_char_take(s@, c, i as int);
        }
        let ghost before = split_char(s@.take(i as int), c);
        let ghost old_done = done@;
        let ghost old_start = start;
        if s[i] == c {
            proof {
                assert(split_char(s@.take(i + 1), c) == before.push(Seq::empty()));
            }
            done.push((start, i));
            start = i + 1;
            proof {
                assert(s@.subrange(start as int, i + 1) =~= Seq::<char>::empty());
            }
        } else {
            proof {
                assert(split_char(s@.take(i + 1), c) == before.update(
                    before.len() - 1,
                    before.last().push(s@[i as int]),
                ));
                assert(s@.subrange(start as int, i as int).push(s@[i as int]) =~= s@.subrange(
                    start as int,
                    i + 1,
                ));
            }
        }
        i = i + 1;
        proof {
            assert forall|k: int| 0 <= k < done@.len() implies #[trigger] done@[k].0 <= done@[k].1
                <= s@.len() && split_char(s@.take(i as int), c)[k] == s@.subrange(
                done@[k].0 as int,
                done@[k].1 as int,
            ) by {
                if k < old_done.len() {
                    assert(done@[k] == old_done[k]);
                    assert(split_char(s@.take(i as int), c)[k] == before[k]);
                } else {
                    assert(done@[k] == (old_start, (i - 1) as usize));
                    assert(split_char(s@.take(i as int), c)[k] == before[k]);
                }
                assert(split_char(s@.take(i as int), c)[k] =~= s@.subrange(
                    done@[k].0 as int,
                    done@[k].1 as int,
                ));
            }
        }
    }
    done.push((start, n));
    proof {
        assert(s@.take(n as int) =~= s@);
        assert forall|k: int| 0 <= k < done@.len() implies #[trigger] done@[k].0 <= done@[k].1
            <= s@.len() && split_char(s@, c)[k] == s@.subrange(
            done@[k].0 as int,
            done@[k].1 as int,
        ) by {}
    }
    done
}

impl View for Lockfile {
    type V = Handshake;

    closed spec fn view(&self) -> Handshake {
        Handshake {
            path: self.path@,
            port: self.port as int,
            token: self.token@,
            contents: self.contents@,
        }
    }
}

impl Lockfile {
    /// The port and raw token of a handshake file's text; fails when the text has fewer than
    /// four colon-separated fields or its third field is not a base-10 integer.
    pub fn parse_fields(contents: &str) -> (r: Result<(isize, String), LcuDriverError>)
        ensures
            match handshake_fields(contents@) {
                Some((port, raw)) => r matches Ok((p, t)) && p == port && t@ == raw,
                None => r == Err::<(isize, String), LcuDriverError>(
                    LcuDriverError::FailedToReadLockfileToken,
                ),
            },
    {
        let cs = chars_of(contents);
        let fields = split_bounds(&cs, ':');
        if fields.len() < 4 {
            return Err(LcuDriverError::FailedToReadLockfileToken);
        }
        let (pa, pb) = fields[2];
        let (ta, tb) = fields[3];
        proof {
            assert(split_char(cs@, ':')[2] == cs@.subrange(pa as int, pb as int));
            assert(split_char(cs@, ':')[3] == cs@.subrange(ta as int, tb as int));
        }
        match parse_isize_exec(&cs, pa, pb) {
            Some(port) => Ok((port, String::from_str(contents.substring_char(ta, tb)))),
            None => Err(LcuDriverError::FailedToReadLockfileToken),
        }
    }

    /// The handshake read from `path` with text `contents`: its port is the third field, its
    /// credential the base64 of `riot:` followed by the fourth.
    pub fn from_contents(path: String, contents: String) -> (r: Result<Lockfile, LcuDriverError>)
        requires
            contents@.len() <= usize::MAX / 16,
        ensures
            match handshake_fields(contents@) {
                Some((port, raw)) => r matches Ok(l) && l@ == (Handshake {
                    path: path@,
                    port,
                    token: credential_of(raw),
                    contents: contents@,
                }),
                None => r == Err::<Lockfile, LcuDriverError>(
                    LcuDriverError::FailedToReadLockfileToken,
                ),
            },
    {
        match Self::parse_fields(contents.as_str()) {
            Ok((port, raw)) => {
                proof {
                    reveal_strlit("riot:");
                    lemma_split_char_piece_len(contents@, ':', 3);
                }
                let user = String::from_str("riot:");
                let text = user.concat(raw.as_str());
                let token = encode_base64(text.as_str());
                Ok(Lockfile { path, port, token, contents })
            },
            Err(e) => Err(e),
        }
    }

    pub fn contents(&self) -> (r: &str)
        ensures
            r@ == self@.contents,
    {
        self.contents.as_str()
    }

    pub fn port(&self) -> (r: isize)
        ensures
            r == self@.port,
    {
        self.port
    }

    pub fn token(&self) -> (r: &str)
        ensures
            r@ == self@.token,
    {
        self.token.as_str()
    }

    pub fn path(&self) -> (r: &str)
        ensures
            r@ == self@.path,
    {
        self.path.as_str()
    }

    /// Whether the handshake file must be read anew into a new session, given the text a
    /// fresh read gave, or `None` when the file is gone or cannot be read.
    pub fn needs_reload(&self, fresh: Option<&str>) -> (r: bool)
        ensures
            r == reload_needed(
                self@.contents,
                match fresh {
                    Some(t) => Some(t@),
                    None => None,
                },
            ),
    {
        match fresh {
            Some(text) => !str_eq(text, self.contents.as_str()),
            None => true,
        }
    }
}

/// Whether two strings hold the same characters.
fn str_eq(a: &str, b: &str) -> (r: bool)
    ensures
        r == (a@ == b@),
{
    let x = chars_of(a);
    let y = chars_of(b);
    if x.len() != y.len() {
        return false;
    }
    let mut i: usize = 0;
    while i < x.len()
        invariant
            x@ == a@,
            y@ == b@,
            x@.len() == y@.len(),
            i <= x@.len(),
            forall|j: int| 0 <= j < i ==> x@[j] == y@[j],
        decreases x@.len() - i,
    {
        if x[i] != y[i] {
            return false;
        }
        i = i + 1;
    }
    proof {
        assert(x@ =~= y@);
    }
    true
}

/// Every piece of `s` cut at `c` is no longer than `s`.
pub proof fn lemma_split_char_piece_len(s: Seq<char>, c: char, k: int)
    requires
        0 <= k < split_char(s, c).len(),
    ensures
        split_char(s, c)[k].len() <= s.len(),
    decreases s.len(),
{
    if s.len() > 0 {
        let init = split_char(s.drop_last(), c);
        lemma_split_char_nonempty(s.drop_last(), c);
        if k < init.len() {
            lemma_split_char_piece_len(s.drop_last(), c, k);
        }
        if s.last() != c {
            assert(split_char(s, c) == init.update(init.len() - 1, init.last().push(s.last())));
        }
    }
}

/// Cutting yields at least one piece.
pub proof fn lemma_split_char_nonempty(s: Seq<char>, c: char)
    ensures
        split_char(s, c).len() >= 1,
    decreases s.len(),
{
    if s.len() > 0 {
        lemma_split_char_nonempty(s.drop_last(), c);
    }
}

/// The fields joined into one text, with `c` between each two.
pub open spec fn join_fields(fields: Seq<Seq<char>>, c: char) -> Seq<char>
    decreases fields.len(),
{
    if fields.len() <= 1 {
        if fields.len() == 1 {
            fields[0]
        } else {
            Seq::empty()
        }
    } else {
        join_fields(fields.drop_last(), c) + seq![c] + fields.last()
    }
}

/// No field holds the separator.
pub open spec fn free_of(fields: Seq<Seq<char>>, c: char) -> bool {
    forall|i: int, j: int| 0 <= i < fields.len() && 0 <= j < fields[i].len() ==> #[trigger] fields[i][j] != c
}

proof fn lemma_split_single(t: Seq<char>, c: char)
    requires
        forall|j: int| 0 <= j < t.len() ==> t[j] != c,
    ensures
        split_char(t, c) == seq![t],
    decreases t.len(),
{
    if t.len() > 0 {
        lemma_split_single(t.drop_last(), c);
        assert(t.drop_last().push(t.last()) =~= t);
        assert(seq![t.drop_last()].update(0, t.drop_last().push(t.last())) =~= seq![t]);
    } else {
        assert(t =~= Seq::<char>::empty());
    }
}

proof fn lemma_split_after(s: Seq<char>, c: char, t: Seq<char>)
    requires
        forall|j: int| 0 <= j < t.len() ==> t[j] != c,
    ensures
        split_char(s + seq![c] + t, c) == split_char(s, c).push(t),
    decreases t.len(),
{
    let whole = s + seq![c] + t;
    if t.len() == 0 {
        assert(whole.drop_last() =~= s);
        assert(t =~= Seq::<char>::empty());
    } else {
        lemma_split_after(s, c, t.drop_last());
        assert(whole.drop_last() =~= s + seq![c] + t.drop_last());
        assert(whole.last() == t.last());
        let init = split_char(s, c).push(t.drop_last());
        assert(t.drop_last().push(t.last()) =~= t);
        assert(init.update(init.len() - 1, t.drop_last().push(t.last())) =~= split_char(s, c).push(
            t,
        ));
    }
}

/// Cutting joined fields at their separator gives the fields back.
pub proof fn lemma_split_join(fields: Seq<Seq<char>>, c: char)
    requires
        fields.len() >= 1,
        free_of(fields, c),
    ensures
        split_char(join_fields(fields, c), c) == fields,
    decreases fields.len(),
{
    if fields.len() == 1 {
        assert forall|j: int| 0 <= j < fields[0].len() implies fields[0][j] != c by {
            assert(fields[0][j] != c);
        }
        lemma_split_single(fields[0], c);
        assert(seq![fields[0]] =~= fields);
    } else {
        let init = fields.drop_last();
        assert forall|i: int, j: int| 0 <= i < init.len() && 0 <= j < init[i].len() implies #[trigger] init[i][j] != c by {
            assert(init[i] == fields[i]);
        }
        lemma_split_join(init, c);
        assert forall|j: int| 0 <= j < fields.last().len() implies fields.last()[j] != c by {
            assert(fields[fields.len() - 1][j] != c);
        }
        lemma_split_after(join_fields(init, c), c, fields.last());
        assert(init.push(fields.last()) =~= fields);
    }
}

/// Handshake round trip: for any colon-free fields, at least four of them with the third an
/// integer, the text that joins them with colons yields that integer as the port and the
/// fourth field as the raw token.
pub proof fn lemma_handshake_round_trip(fields: Seq<Seq<char>>)
    requires
        fields.len() >= 4,
        free_of(fields, ':'),
        parse_isize(fields[2]) is Some,
    ensures
        handshake_fields(join_fields(fields, ':')) == Some(
            (parse_isize(fields[2])->0, fields[3]),
        ),
{
    lemma_split_join(fields, ':');
}

/// Malformed handshake: colon-free fields joined with colons are refused when there are
/// fewer than four of them or the third is not an integer.
pub proof fn lemma_malformed_handshake(fields: Seq<Seq<char>>)
    requires
        fields.len() >= 1,
        free_of(fields, ':'),
        fields.len() < 4 || parse_isize(fields[2]) is None,
    ensures
        handshake_fields(join_fields(fields, ':')) is None,
{
    lemma_split_join(fields, ':');
}

/// Change detection: a handshake read again with the very same text needs no reload; text
/// that differs in any character, or a file that is gone, needs one.
pub proof fn lemma_change_detection(l: Lockfile, fresh: Seq<char>)
    ensures
        !reload_needed(l@.contents, Some(l@.contents)),
        fresh != l@.contents ==> reload_needed(l@.contents, Some(fresh)),
        reload_needed(l@.contents, None),
{
}

} // verus!
