use vstd::prelude::*;
use vstd::string::StringSliceAdditionalSpecFns;

verus! {

/// The page that answers a request.
#[derive(Debug, Clone, Copy, PartialEq, Eq, Structural)]
pub enum Page {
    /// The site's front page, for `GET / HTTP/1.1`.
    Index,
    /// The not-found page, for any other request line.
    NotFound,
}

/// Picks the page for a request from its first line.
pub fn route(request_line: &str) -> (r: Page)
    ensures
        r == Page::Index <==> request_line@ == "GET / HTTP/1.1"@,
{
    let index = "GET / HTTP/1.1";
    proof {
        reveal_strlit("GET / HTTP/1.1");
    }
    let n = request_line.unicode_len();
    if n != index.unicode_len() {
        return Page::NotFound;
    }
    let mut i: usize = 0;
    while i < n
        invariant
            n == request_line@.len(),
            n == index@.len(),
            index@ == "GET / HTTP/1.1"@,
            i <= n,
            forall|k: int| 0 <= k < i ==> request_line@[k] == index@[k],
        decreases n - i,
    {
        if request_line.get_char(i) != index.get_char(i) {
            assert(request_line@[i as int] != index@[i as int]);
            return Page::NotFound;
        }
        i = i + 1;
    }
    assert(request_line@ =~= index@);
    Page::Index
}

impl Page {
    /// The status line that the response starts with.
    pub fn status_line(&self) -> (r: &'static str)
        ensures
            *self == Page::Index ==> r@ == "HTTP/1.1 200 OK"@,
            *self == Page::NotFound ==> r@ == "HTTP/1.1 404 NOT FOUND"@,
    {
        match self {
            Page::Index => "HTTP/1.1 200 OK",
            Page::NotFound => "HTTP/1.1 404 NOT FOUND",
        }
    }

    /// The file whose contents make up the response body.
    pub fn file_name(&self) -> (r: &'static str)
        ensures
            *self == Page::Index ==> r@ == "hello.html"@,
            *self == Page::NotFound ==> r@ == "404.html"@,
    {
        match self {
            Page::Index => "hello.html",
            Page::NotFound => "404.html",
        }
    }
}

/// The decimal digits of `n`, as ASCII bytes, most significant first.
pub open spec fn decimal(n: nat) -> Seq<u8>
    decreases n,
{
    if n < 10 {
        seq![(48 + n) as u8]
    } else {
        decimal(n / 10).push((48 + n % 10) as u8)
    }
}

/// A response: the status line, a `Content-Length` header giving the body's
/// length in bytes, an empty line, and the body.
pub open spec fn response_bytes(status_line: Seq<u8>, body: Seq<u8>) -> Seq<u8> {
    status_line + "\r\nContent-Length: ".spec_bytes() + decimal(body.len()) + "\r\n\r\n".spec_bytes()
        + body
}

fn push_decimal(out: &mut Vec<u8>, n: usize)
    ensures
        final(out)@ == old(out)@ + decimal(n as nat),
    decreases n,
{
    if n >= 10 {
        push_decimal(out, n / 10);
    }
    let digit: u8 = (n % 10) as u8;
    out.push(48 + digit);
    proof {
        if n < 10 {
            assert(old(out)@ + decimal(n as nat) =~= old(out)@.push((48 + n) as u8));
        } else {
            assert(old(out)@ + decimal(n as nat) =~= (old(out)@ + decimal((n / 10) as nat)).push(
                (48 + n % 10) as u8,
            ));
        }
    }
}

fn push_bytes(out: &mut Vec<u8>, bytes: &[u8])
    ensures
        final(out)@ == old(out)@ + bytes@,
{
    let mut i: usize = 0;
    while i < bytes.len()
        invariant
            i <= bytes@.len(),
            out@ == old(out)@ + bytes@.subrange(0, i as int),
        decreases bytes@.len() - i,
    {
        out.push(bytes[i]);
        i = i + 1;
        assert(out@ =~= old(out)@ + bytes@.subrange(0, i as int));
    }
    assert(bytes@.subrange(0, i as int) =~= bytes@);
}

/// The bytes sent back for a request answered with `status_line` and `contents`.
pub fn response(status_line: &str, contents: &str) -> (r: Vec<u8>)
    ensures
        r@ == response_bytes(status_line.spec_bytes(), contents.spec_bytes()),
{
    let body = contents.as_bytes();
    let mut out: Vec<u8> = Vec::new();
    push_bytes(&mut out, status_line.as_bytes());
    push_bytes(&mut out, "\r\nContent-Length: ".as_bytes());
    push_decimal(&mut out, body.len());
    push_bytes(&mut out, "\r\n\r\n".as_bytes());
    push_bytes(&mut out, body);
    out
}

} // verus!
