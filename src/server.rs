use vstd::prelude::*;

verus! {

/// The most of a request that is read.
pub const REQUEST_BUFFER_LEN: usize = 1024;

/// The bytes of `GET / HTTP/1.1\r\n`.
pub open spec fn root_request_line() -> Seq<u8> {
    seq![71u8, 69, 84, 32, 47, 32, 72, 84, 84, 80, 47, 49, 46, 49, 13, 10]
}

/// Whether `request` begins with the request line for `/`.
pub open spec fn asks_for_root(request: Seq<u8>) -> bool {
    request.len() >= root_request_line().len()
        && request.subrange(0, root_request_line().len() as int) == root_request_line()
}

/// What a connection gets back: a status line and the file whose contents follow it.
#[derive(Clone, Copy, Debug, PartialEq, Eq)]
pub struct Response {
    pub status_line: &'static str,
    pub filename: &'static str,
}

/// Whether the request starts with `GET / HTTP/1.1\r\n`.
pub fn is_root_request(request: &[u8]) -> (r: bool)
    ensures
        r == asks_for_root(request@),
{
    let get: [u8; 16] = [71, 69, 84, 32, 47, 32, 72, 84, 84, 80, 47, 49, 46, 49, 13, 10];
    assert(get@ =~= root_request_line());
    if request.len() < 16 {
        return false;
    }
    let mut i: usize = 0;
    while i < 16
        invariant
            i <= 16,
            request@.len() >= 16,
            get@ == root_request_line(),
            forall|j: int| 0 <= j < i ==> request@[j] == get@[j],
        decreases 16 - i,
    {
        if request[i] != get[i] {
            assert(request@.subrange(0, 16)[i as int] != root_request_line()[i as int]);
            return false;
        }
        i = i + 1;
    }
    assert(request@.subrange(0, 16) =~= root_request_line());
    true
}

/// The response to a request: `200 OK` with `hello.html` for `GET /`, and
/// `404 NOT FOUND` with `404.html` for anything else.
pub fn route(request: &[u8]) -> (r: Response)
    ensures
        asks_for_root(request@) ==> r.status_line@ == "HTTP/1.1 200 OK\r\n\r\n"@
            && r.filename@ == "hello.html"@,
        !asks_for_root(request@) ==> r.status_line@ == "HTTP/1.1 404 NOT FOUND\r\n\r\n"@
            && r.filename@ == "404.html"@,
{
    if is_root_request(request) {
        Response { status_line: "HTTP/1.1 200 OK\r\n\r\n", filename: "hello.html" }
    } else {
        Response { status_line: "HTTP/1.1 404 NOT FOUND\r\n\r\n", filename: "404.html" }
    }
}

} // verus!
