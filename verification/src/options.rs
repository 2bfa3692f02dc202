//! Options for establishing and accepting WebSocket connections.

use vstd::prelude::*;

use crate::http::Header;
use crate::mask::copy_range;

verus! {

/// Errors that can occur when creating [`ConnectOptions`].
#[derive(Debug, Clone, Copy, PartialEq, Eq, Structural)]
pub enum ConnectOptionsError {
    /// The path must not be empty.
    EmptyPath,
}

/// True of the ASCII whitespace bytes trimmed from a path.
pub open spec fn is_ws_byte(b: u8) -> bool {
    b == 32 || (9 <= b <= 13)
}

/// The first position at or after `from` whose byte is not whitespace.
pub open spec fn ws_start(s: Seq<u8>, from: int) -> int
    decreases s.len() - from,
    when 0 <= from
{
    if from >= s.len() {
        from
    } else if is_ws_byte(s[from]) {
        ws_start(s, from + 1)
    } else {
        from
    }
}

/// The position after the last non-whitespace byte before `upto`.
pub open spec fn ws_end(s: Seq<u8>, upto: int) -> int
    decreases upto,
    when upto <= s.len()
{
    if upto <= 0 {
        0
    } else if is_ws_byte(s[upto - 1]) {
        ws_end(s, upto - 1)
    } else {
        upto
    }
}

/// The trimmed end never lies past the position it starts from.
pub proof fn lemma_ws_end_le(s: Seq<u8>, upto: int)
    requires
        0 <= upto <= s.len(),
    ensures
        0 <= ws_end(s, upto) <= upto,
    decreases upto,
{
    if upto > 0 && is_ws_byte(s[upto - 1]) {
        lemma_ws_end_le(s, upto - 1);
    }
}

/// The bytes of `s` with leading and trailing ASCII whitespace removed.
pub open spec fn trim_spec(s: Seq<u8>) -> Seq<u8> {
    let start = ws_start(s, 0);
    let end = ws_end(s, s.len() as int);
    if start >= end {
        Seq::empty()
    } else {
        s.subrange(start, end)
    }
}

/// Removes leading and trailing ASCII whitespace.
pub fn trim_bytes(s: &Vec<u8>) -> (r: Vec<u8>)
    ensures
        r@ =~= trim_spec(s@),
{
    let n = s.len();
    let mut start: usize = 0;
    while start < n && (s[start] == 32 || (9 <= s[start] && s[start] <= 13))
        invariant
            start <= n,
            n == s@.len(),
            ws_start(s@, 0) == ws_start(s@, start as int),
        decreases n - start,
    {
        start += 1;
    }
    let mut end: usize = n;
    while end > start && (s[end - 1] == 32 || (9 <= s[end - 1] && s[end - 1] <= 13))
        invariant
            start <= end <= n,
            n == s@.len(),
            ws_end(s@, n as int) == ws_end(s@, end as int),
            start == ws_start(s@, 0),
        decreases end,
    {
        end -= 1;
    }
    if start >= end {
        proof {
            lemma_ws_end_le(s@, end as int);
        }
        Vec::new()
    } else {
        copy_range(s, start, end)
    }
}

/// Options for establishing a WebSocket connection as a client.
#[derive(Debug)]
pub struct ConnectOptions {
    /// The request path for the WebSocket handshake. Must not be empty.
    pub path: Vec<u8>,
    /// Additional HTTP headers to include in the handshake request.
    pub headers: Vec<Header>,
}

impl Default for ConnectOptions {
    /// The default options: the root path, no additional headers.
    fn default() -> (r: Self)
        ensures
            r.path@ =~= seq![47u8],
            r.headers@.len() == 0,
    {
        let mut path: Vec<u8> = Vec::new();
        path.push(47);
        Self { path, headers: Vec::new() }
    }
}

impl ConnectOptions {
    /// Creates options with the given path, trimmed of surrounding
    /// whitespace; an empty path is refused.
    pub fn new(path: Vec<u8>) -> (r: Result<Self, ConnectOptionsError>)
        ensures
            trim_spec(path@).len() == 0 ==> r == Err::<Self, _>(ConnectOptionsError::EmptyPath),
            trim_spec(path@).len() > 0 ==> (r matches Ok(o) && o.path@ == trim_spec(path@)
                && o.headers@.len() == 0),
    {
        Self::default().with_path(path)
    }

    /// Creates options with the given path, unchecked and untrimmed.
    pub fn new_unchecked(path: Vec<u8>) -> (r: Self)
        ensures
            r.path@ == path@,
            r.headers@.len() == 0,
    {
        Self::default().with_path_unchecked(path)
    }

    /// Returns the path.
    pub fn path(&self) -> (r: &Vec<u8>)
        ensures
            r@ == self.path@,
    {
        &self.path
    }

    /// Sets the path, trimmed of surrounding whitespace; an empty path
    /// is refused.
    pub fn with_path(self, path: Vec<u8>) -> (r: Result<Self, ConnectOptionsError>)
        ensures
            trim_spec(path@).len() == 0 ==> r == Err::<Self, _>(ConnectOptionsError::EmptyPath),
            trim_spec(path@).len() > 0 ==> (r matches Ok(o) && o.path@ == trim_spec(path@)
                && o.headers@ == self.headers@),
    {
        let trimmed = trim_bytes(&path);
        if trimmed.len() == 0 {
            return Err(ConnectOptionsError::EmptyPath);
        }
        Ok(Self { path: trimmed, headers: self.headers })
    }

    /// Sets the path without trimming or checking it.
    pub fn with_path_unchecked(self, path: Vec<u8>) -> (r: Self)
        ensures
            r.path@ == path@,
            r.headers@ == self.headers@,
    {
        Self { path, headers: self.headers }
    }

    /// Returns the headers.
    pub fn headers(&self) -> (r: &Vec<Header>)
        ensures
            r@ == self.headers@,
    {
        &self.headers
    }

    /// Sets the headers.
    pub fn with_headers(self, headers: Vec<Header>) -> (r: Self)
        ensures
            r.path@ == self.path@,
            r.headers@ == headers@,
    {
        Self { path: self.path, headers }
    }
}

/// Options for accepting a WebSocket connection as a server.
#[derive(Debug)]
pub struct AcceptOptions {
    /// Additional HTTP headers to include in the handshake response.
    pub headers: Vec<Header>,
}

impl Default for AcceptOptions {
    /// The default options: no additional headers.
    fn default() -> (r: Self)
        ensures
            r.headers@.len() == 0,
    {
        Self { headers: Vec::new() }
    }
}

impl AcceptOptions {
    /// Sets the headers.
    pub fn with_headers(self, headers: Vec<Header>) -> (r: Self)
        ensures
            r.headers@ == headers@,
    {
        Self { headers }
    }

    /// Returns the headers.
    pub fn headers(&self) -> (r: &Vec<Header>)
        ensures
            r@ == self.headers@,
    {
        &self.headers
    }
}

} // verus!
