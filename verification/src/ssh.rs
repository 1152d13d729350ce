//! Parsing of SSH connection strings of the form `user@hostname[:port]`.

use vstd::prelude::*;
use crate::params::parse_uint;
use crate::params::parse_uint_chars;
use crate::strutil::{chars_of, string_from_chars};

verus! {

/// A parsed connection string.
#[derive(Debug, Clone)]
pub struct SshConnectionInfo {
    pub username: String,
    pub hostname: String,
    pub port: u16,
}

/// Why a connection string is rejected.
#[derive(Clone, Copy, Debug, PartialEq, Eq, Structural)]
pub enum SshParseError {
    /// Text after the last `:` is not a valid port number.
    InvalidPort,
    /// No `@` separates a user from a hostname.
    InvalidFormat,
}

/// Index of the last occurrence of `c` in `s`, or -1 if there is none.
pub open spec fn find_last(s: Seq<char>, c: char) -> int
    decreases s.len(),
{
    if s.len() == 0 {
        -1
    } else if s.last() == c {
        s.len() - 1
    } else {
        find_last(s.drop_last(), c)
    }
}

/// Index of the first occurrence of `c` in `s`, or -1 if there is none.
pub open spec fn find_first(s: Seq<char>, c: char) -> int
    decreases s.len(),
{
    if s.len() == 0 {
        -1
    } else if s[0] == c {
        0
    } else {
        let r = find_first(s.drop_first(), c);
        if r < 0 {
            -1
        } else {
            r + 1
        }
    }
}

/// What parsing a connection string yields: username, hostname and port, or
/// the error. A trailing `:port` is split off at the last `:` and must parse
/// as a 16-bit number; the rest must contain an `@`, with everything before
/// the first `@` the user and everything after it the host. Without a `:`
/// the port defaults to 22.
pub open spec fn spec_parse_connection(s: Seq<char>) -> Result<
    (Seq<char>, Seq<char>, int),
    SshParseError,
> {
    let ci = find_last(s, ':');
    let user_host = if ci >= 0 {
        s.take(ci)
    } else {
        s
    };
    let port = if ci >= 0 {
        parse_uint(s.skip(ci + 1), 65535)
    } else {
        Some(22)
    };
    if port is None {
        Err(SshParseError::InvalidPort)
    } else {
        let ai = find_first(user_host, '@');
        if ai < 0 {
            Err(SshParseError::InvalidFormat)
        } else {
            Ok((user_host.take(ai), user_host.skip(ai + 1), port->0))
        }
    }
}

proof fn lemma_find_last_none(s: Seq<char>, c: char)
    requires
        forall|i: int| 0 <= i < s.len() ==> s[i] != c,
    ensures
        find_last(s, c) == -1,
    decreases s.len(),
{
    if s.len() > 0 {
        lemma_find_last_none(s.drop_last(), c);
    }
}

proof fn lemma_find_last_at(s: Seq<char>, c: char, k: int)
    requires
        0 <= k < s.len(),
        s[k] == c,
        forall|i: int| k < i < s.len() ==> s[i] != c,
    ensures
        find_last(s, c) == k,
    decreases s.len(),
{
    if k < s.len() - 1 {
        lemma_find_last_at(s.drop_last(), c, k);
    }
}

pub proof fn lemma_find_first_none(s: Seq<char>, c: char)
    requires
        forall|i: int| 0 <= i < s.len() ==> s[i] != c,
    ensures
        find_first(s, c) == -1,
    decreases s.len(),
{
    if s.len() > 0 {
        assert(forall|i: int|
            0 <= i < s.drop_first().len() ==> s.drop_first()[i] == s[i + 1]);
        lemma_find_first_none(s.drop_first(), c);
    }
}

pub proof fn lemma_find_first_at(s: Seq<char>, c: char, k: int)
    requires
        0 <= k < s.len(),
        s[k] == c,
        forall|i: int| 0 <= i < k ==> s[i] != c,
    ensures
        find_first(s, c) == k,
    decreases s.len(),
{
    if k > 0 {
        assert(forall|i: int|
            0 <= i < s.drop_first().len() ==> s.drop_first()[i] == s[i + 1]);
        lemma_find_first_at(s.drop_first(), c, k - 1);
    }
}

/// A copy of `v[from..to]`.
pub fn subvec(v: &Vec<char>, from: usize, to: usize) -> (r: Vec<char>)
    requires
        from <= to <= v@.len(),
    ensures
        r@ == v@.subrange(from as int, to as int),
{
    let mut r: Vec<char> = Vec::new();
    let mut i: usize = from;
    while i < to
        invariant
            from <= i <= to <= v@.len(),
            r@ =~= v@.subrange(from as int, i as int),
        decreases to - i,
    {
        r.push(v[i]);
        proof {
            assert(r@ =~= v@.subrange(from as int, i as int + 1));
        }
        i = i + 1;
    }
    r
}

/// Index of the last occurrence of `c`, if any.
pub fn find_last_exec(v: &Vec<char>, c: char) -> (r: Option<usize>)
    ensures
        match r {
            Some(k) => k < v@.len() && k as int == find_last(v@, c),
            None => find_last(v@, c) == -1,
        },
{
    let mut j: usize = v.len();
    while j > 0
        invariant
            j <= v@.len(),
            forall|i: int| j as int <= i < v@.len() ==> v@[i] != c,
        decreases j,
    {
        j = j - 1;
        if v[j] == c {
            proof {
                lemma_find_last_at(v@, c, j as int);
            }
            return Some(j);
        }
    }
    proof {
        lemma_find_last_none(v@, c);
    }
    None
}

/// Index of the first occurrence of `c`, if any.
fn find_first_exec(v: &Vec<char>, c: char) -> (r: Option<usize>)
    ensures
        match r {
            Some(k) => k < v@.len() && k as int == find_first(v@, c),
            None => find_first(v@, c) == -1,
        },
{
    let mut j: usize = 0;
    while j < v.len()
        invariant
            j <= v@.len(),
            forall|i: int| 0 <= i < j as int ==> v@[i] != c,
        decreases v@.len() - j,
    {
        if v[j] == c {
            proof {
                lemma_find_first_at(v@, c, j as int);
            }
            return Some(j);
        }
        j = j + 1;
    }
    proof {
        lemma_find_first_none(v@, c);
    }
    None
}

impl SshConnectionInfo {
    /// Parses a connection string like `user@hostname` or
    /// `user@hostname:port`, as `spec_parse_connection` describes.
    pub fn parse(connection_string: &str) -> (r: Result<SshConnectionInfo, SshParseError>)
        ensures
            match r {
                Ok(info) => spec_parse_connection(connection_string@) == Ok::<
                    (Seq<char>, Seq<char>, int),
                    SshParseError,
                >((info.username@, info.hostname@, info.port as int)),
                Err(e) => spec_parse_connection(connection_string@) == Err::<
                    (Seq<char>, Seq<char>, int),
                    SshParseError,
                >(e),
            },
    {
        let chars = chars_of(connection_string);
        let colon = find_last_exec(&chars, ':');
        let mut port: u16 = 22;
        let user_host: Vec<char>;
        match colon {
            Some(ci) => {
                let port_part = subvec(&chars, ci + 1, chars.len());
                proof {
                    assert(port_part@ =~= chars@.skip(ci as int + 1));
                }
                match parse_uint_chars(&port_part, 65535) {
                    Some(v) => {
                        port = v as u16;
                    },
                    None => {
                        return Err(SshParseError::InvalidPort);
                    },
                }
                user_host = subvec(&chars, 0, ci);
                proof {
                    assert(user_host@ =~= chars@.take(ci as int));
                }
            },
            None => {
                user_host = subvec(&chars, 0, chars.len());
                proof {
                    assert(user_host@ =~= chars@);
                }
            },
        }
        match find_first_exec(&user_host, '@') {
            Some(ai) => {
                let user_part = subvec(&user_host, 0, ai);
                let host_part = subvec(&user_host, ai + 1, user_host.len());
                proof {
                    assert(user_part@ =~= user_host@.take(ai as int));
                    assert(host_part@ =~= user_host@.skip(ai as int + 1));
                }
                let username = string_from_chars(&user_part);
                let hostname = string_from_chars(&host_part);
                Ok(SshConnectionInfo { username, hostname, port })
            },
            None => Err(SshParseError::InvalidFormat),
        }
    }
}

} // verus!
