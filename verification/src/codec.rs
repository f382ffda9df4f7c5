//! Wire codec: pulls the id segment and the body out of a raw request buffer,
//! and turns a status/body pair back into response text.

use vstd::prelude::*;
use vstd::string::*;
use crate::text::{is_space, is_space_char};

verus! {

/// The suffix of `s` after its `n`-th `/`, or `None` if `s` has fewer
/// than `n` of them.
pub open spec fn after_nth_sep(s: Seq<char>, n: nat) -> Option<Seq<char>>
    decreases s.len(),
{
    if n == 0 {
        Some(s)
    } else if s.len() == 0 {
        None
    } else if s[0] == '/' {
        after_nth_sep(s.drop_first(), (n - 1) as nat)
    } else {
        after_nth_sep(s.drop_first(), n)
    }
}

/// The longest prefix of `s` that holds no `/`.
pub open spec fn until_sep(s: Seq<char>) -> Seq<char>
    decreases s.len(),
{
    if s.len() == 0 {
        s
    } else if s[0] == '/' {
        Seq::empty()
    } else {
        seq![s[0]] + until_sep(s.drop_first())
    }
}

/// The fifth `/`-separated segment of `s` (index four), or empty if `s`
/// has fewer than four separators.
pub open spec fn fifth_segment(s: Seq<char>) -> Seq<char> {
    match after_nth_sep(s, 4) {
        Some(t) => until_sep(t),
        None => Seq::empty(),
    }
}

/// `s` without its leading whitespace.
pub open spec fn skip_spaces(s: Seq<char>) -> Seq<char>
    decreases s.len(),
{
    if s.len() == 0 {
        s
    } else if is_space(s[0]) {
        skip_spaces(s.drop_first())
    } else {
        s
    }
}

/// The longest prefix of `s` that holds no whitespace.
pub open spec fn until_space(s: Seq<char>) -> Seq<char>
    decreases s.len(),
{
    if s.len() == 0 {
        s
    } else if is_space(s[0]) {
        Seq::empty()
    } else {
        seq![s[0]] + until_space(s.drop_first())
    }
}

/// The id carried by a request: the fifth `/`-separated segment, kept up
/// to its first whitespace word.
pub open spec fn id_token_of(req: Seq<char>) -> Seq<char> {
    until_space(skip_spaces(fifth_segment(req)))
}

proof fn lemma_until_sep_range(s: Seq<char>, i: int, e: int)
    requires
        0 <= i <= e <= s.len(),
        forall|k: int| i <= k < e ==> s[k] != '/',
        e == s.len() || s[e] == '/',
    ensures
        until_sep(s.skip(i)) == s.subrange(i, e),
    decreases e - i,
{
    if i == e {
        if i == s.len() {
            assert(s.skip(i) =~= Seq::<char>::empty());
        } else {
            assert(s.skip(i)[0] == s[i]);
        }
        assert(s.subrange(i, e) =~= Seq::<char>::empty());
        assert(until_sep(s.skip(i)) =~= s.subrange(i, e));
    } else {
        lemma_until_sep_range(s, i + 1, e);
        assert(s.skip(i).drop_first() =~= s.skip(i + 1));
        assert(s.skip(i)[0] == s[i]);
        assert(seq![s[i]] + s.subrange(i + 1, e) =~= s.subrange(i, e));
    }
}

proof fn lemma_skip_spaces_range(s: Seq<char>, i: int, j: int, e: int)
    requires
        0 <= i <= j <= e <= s.len(),
        forall|k: int| i <= k < j ==> is_space(#[trigger] s[k]),
        j == e || !is_space(s[j]),
    ensures
        skip_spaces(s.subrange(i, e)) == s.subrange(j, e),
    decreases j - i,
{
    if i == j {
        if i < e {
            assert(s.subrange(i, e)[0] == s[i]);
        } else {
            assert(s.subrange(i, e) =~= Seq::<char>::empty());
        }
        assert(skip_spaces(s.subrange(i, e)) =~= s.subrange(j, e));
    } else {
        lemma_skip_spaces_range(s, i + 1, j, e);
        assert(s.subrange(i, e)[0] == s[i]);
        assert(s.subrange(i, e).drop_first() =~= s.subrange(i + 1, e));
    }
}

proof fn lemma_until_space_range(s: Seq<char>, j: int, k: int, e: int)
    requires
        0 <= j <= k <= e <= s.len(),
        forall|m: int| j <= m < k ==> !is_space(#[trigger] s[m]),
        k == e || is_space(s[k]),
    ensures
        until_space(s.subrange(j, e)) == s.subrange(j, k),
    decreases k - j,
{
    if j == k {
        if j < e {
            assert(s.subrange(j, e)[0] == s[j]);
        } else {
            assert(s.subrange(j, e) =~= Seq::<char>::empty());
        }
        assert(until_space(s.subrange(j, e)) =~= s.subrange(j, k));
    } else {
        lemma_until_space_range(s, j + 1, k, e);
        assert(s.subrange(j, e)[0] == s[j]);
        assert(s.subrange(j, e).drop_first() =~= s.subrange(j + 1, e));
        assert(seq![s[j]] + s.subrange(j + 1, k) =~= s.subrange(j, k));
    }
}

/// The id segment of a request: the fifth `/`-separated piece, trimmed to
/// the word before any whitespace, or empty when the path is too short.
pub fn get_id(request: &str) -> (id: String)
    ensures
        id@ == id_token_of(request@),
{
    let n = request.unicode_len();
    let mut i: usize = 0;
    let mut slashes: usize = 0;
    proof {
        assert(request@.skip(0) =~= request@);
    }
    while i < n && slashes < 4
        invariant
            0 <= i <= n,
            n == request@.len(),
            slashes <= 4,
            after_nth_sep(request@, 4) == after_nth_sep(
                request@.skip(i as int),
                (4 - slashes) as nat,
            ),
        decreases n - i,
    {
        let c = request.get_char(i);
        proof {
            let t = request@.skip(i as int);
            assert(t[0] == request@[i as int]);
            assert(t.drop_first() =~= request@.skip(i as int + 1));
        }
        if c == '/' {
            slashes += 1;
        }
        i += 1;
    }
    if slashes < 4 {
        proof {
            assert(request@.skip(n as int) =~= Seq::<char>::empty());
            assert(fifth_segment(request@) == Seq::<char>::empty());
        }
        return String::new();
    }
    proof {
        assert(after_nth_sep(request@.skip(i as int), 0) == Some(request@.skip(i as int)));
    }
    let mut e: usize = i;
    while e < n && request.get_char(e) != '/'
        invariant
            i <= e <= n,
            n == request@.len(),
            forall|k: int| i <= k < e ==> request@[k] != '/',
        decreases n - e,
    {
        e += 1;
    }
    proof {
        lemma_until_sep_range(request@, i as int, e as int);
    }
    let mut j: usize = i;
    while j < e && is_space_char(request.get_char(j))
        invariant
            i <= j <= e <= n,
            n == request@.len(),
            forall|k: int| i <= k < j ==> is_space(#[trigger] request@[k]),
        decreases e - j,
    {
        j += 1;
    }
    proof {
        lemma_skip_spaces_range(request@, i as int, j as int, e as int);
    }
    let mut k: usize = j;
    while k < e && !is_space_char(request.get_char(k))
        invariant
            j <= k <= e <= n,
            n == request@.len(),
            forall|m: int| j <= m < k ==> !is_space(#[trigger] request@[m]),
        decreases e - k,
    {
        k += 1;
    }
    proof {
        lemma_until_space_range(request@, j as int, k as int, e as int);
    }
    request.substring_char(j, k).to_owned()
}

/// The part of `s` after the first blank line (CRLF CRLF), or `None` when
/// `s` has no blank line.
pub open spec fn after_blank(s: Seq<char>) -> Option<Seq<char>>
    decreases s.len(),
{
    if s.len() < 4 {
        None
    } else if s[0] == '\r' && s[1] == '\n' && s[2] == '\r' && s[3] == '\n' {
        Some(s.skip(4))
    } else {
        after_blank(s.drop_first())
    }
}

/// Splits the request at its first blank line and returns the body, or
/// `None` when the request has none.
pub fn request_body(request: &str) -> (b: Option<String>)
    ensures
        match b {
            Some(body) => after_blank(request@) == Some(body@),
            None => after_blank(request@) is None,
        },
{
    let n = request.unicode_len();
    if n < 4 {
        return None;
    }
    let mut i: usize = 0;
    proof {
        assert(request@.skip(0) =~= request@);
    }
    while i <= n - 4
        invariant
            0 <= i <= n,
            4 <= n == request@.len(),
            after_blank(request@) == after_blank(request@.skip(i as int)),
        decreases n - i,
    {
        proof {
            let t = request@.skip(i as int);
            assert(t[0] == request@[i as int]);
            assert(t[1] == request@[i + 1]);
            assert(t[2] == request@[i + 2]);
            assert(t[3] == request@[i + 3]);
            assert(t.drop_first() =~= request@.skip(i as int + 1));
        }
        if request.get_char(i) == '\r' && request.get_char(i + 1) == '\n' && request.get_char(
            i + 2,
        ) == '\r' && request.get_char(i + 3) == '\n' {
            proof {
                assert(request@.skip(i as int).skip(4) =~= request@.subrange(i + 4, n as int));
            }
            return Some(request.substring_char(i + 4, n).to_owned());
        }
        i += 1;
    }
    proof {
        assert(request@.skip(i as int).len() < 4);
    }
    None
}

/// The closed set of response outcomes.
#[derive(Clone, Copy, PartialEq, Eq, Structural, Debug)]
pub enum Status {
    Okay,
    NotFound,
    InternalError,
}

/// One response: an outcome and the payload that goes after the status head.
pub struct Response {
    pub status: Status,
    pub body: String,
}

#[verifier::ext_equal]
pub struct ResponseV {
    pub status: Status,
    pub body: Seq<char>,
}

impl View for Response {
    type V = ResponseV;

    open spec fn view(&self) -> ResponseV {
        ResponseV { status: self.status, body: self.body@ }
    }
}

/// The fixed status head written before the payload: OK carries the
/// permissive CORS headers, the two failure heads are bare.
pub open spec fn head_of(s: Status) -> Seq<char> {
    match s {
        Status::Okay => "HTTP/1.1 200 OK\r\n\n    Content-Type: application/json\r\n\n    Access-Control-Allow-Origin: *\r\n\n    Access-Control-Allow-Methods: GET, POST, PUT, DELETE\r\n\n    Access-Control-Allow-Headers: Content-Type\r\n\r\n"@,
        Status::NotFound => "HTTP/1.1 404 NOT FOUND\r\n\r\n"@,
        Status::InternalError => "HTTP/1.1 500 INTERNAL ERROR\r\n\r\n"@,
    }
}

/// The status head as text.
pub fn status_head(s: Status) -> (h: &'static str)
    ensures
        h@ == head_of(s),
{
    match s {
        Status::Okay => "HTTP/1.1 200 OK\r\n\n    Content-Type: application/json\r\n\n    Access-Control-Allow-Origin: *\r\n\n    Access-Control-Allow-Methods: GET, POST, PUT, DELETE\r\n\n    Access-Control-Allow-Headers: Content-Type\r\n\r\n",
        Status::NotFound => "HTTP/1.1 404 NOT FOUND\r\n\r\n",
        Status::InternalError => "HTTP/1.1 500 INTERNAL ERROR\r\n\r\n",
    }
}

/// Encodes a response as the bytes to write back: status head, then body,
/// with no content length; the closed connection delimits the body.
pub fn encode_response(r: &Response) -> (out: String)
    ensures
        out@ == head_of(r.status) + r.body@,
{
    let h = status_head(r.status);
    let s = h.to_owned();
    s.concat(r.body.as_str())
}

} // verus!
