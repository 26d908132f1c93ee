use vstd::prelude::*;
use vstd::string::StrSliceExecFns;

verus! {

/// An incoming request, as the router sees it: the method, the path (without
/// query string or fragment), the headers in the order they arrived, and a
/// body that the router hands on to the handler untouched.
pub struct Request<B> {
    pub method: String,
    pub path: String,
    pub headers: Vec<(String, String)>,
    pub body: B,
}

/// The headers of a request as pairs of name and value.
pub open spec fn headers_view(h: Seq<(String, String)>) -> Seq<(Seq<char>, Seq<char>)> {
    h.map_values(|p: (String, String)| (p.0@, p.1@))
}

/// `a` and `b` are the same character once ASCII letters are folded to one case.
pub open spec fn char_eq_ignore_case(a: char, b: char) -> bool {
    ||| a == b
    ||| ('A' <= a <= 'Z' && a as u32 + 32 == b as u32)
    ||| ('A' <= b <= 'Z' && b as u32 + 32 == a as u32)
}

/// Header names compare without regard to ASCII case.
pub open spec fn name_eq(a: Seq<char>, b: Seq<char>) -> bool {
    &&& a.len() == b.len()
    &&& forall|i: int| 0 <= i < a.len() ==> char_eq_ignore_case(#[trigger] a[i], b[i])
}

/// Some header of `h` is called `name`.
pub open spec fn has_header(h: Seq<(Seq<char>, Seq<char>)>, name: Seq<char>) -> bool {
    exists|i: int| 0 <= i < h.len() && name_eq(#[trigger] h[i].0, name)
}

/// `i` is the position of the first header of `h` called `name`.
pub open spec fn is_first_header(h: Seq<(Seq<char>, Seq<char>)>, name: Seq<char>, i: int) -> bool {
    &&& 0 <= i < h.len()
    &&& name_eq(h[i].0, name)
    &&& forall|j: int| 0 <= j < i ==> !name_eq(#[trigger] h[j].0, name)
}

/// The first header of `h` called `name` has exactly the value `value`.
pub open spec fn first_header_is(
    h: Seq<(Seq<char>, Seq<char>)>,
    name: Seq<char>,
    value: Seq<char>,
) -> bool {
    exists|i: int| #[trigger] is_first_header(h, name, i) && h[i].1 == value
}

fn char_eq_ignore_case_exec(a: char, b: char) -> (r: bool)
    ensures
        r == char_eq_ignore_case(a, b),
{
    let x = a as u32;
    let y = b as u32;
    x == y || ('A' <= a && a <= 'Z' && x + 32 == y) || ('A' <= b && b <= 'Z' && y + 32 == x)
}

/// Compares two header names without regard to ASCII case.
pub fn names_equal(a: &str, b: &str) -> (r: bool)
    ensures
        r == name_eq(a@, b@),
{
    let n = a.unicode_len();
    if n != b.unicode_len() {
        return false;
    }
    let mut i: usize = 0;
    while i < n
        invariant
            n == a@.len(),
            n == b@.len(),
            i <= n,
            forall|k: int| 0 <= k < i ==> char_eq_ignore_case(#[trigger] a@[k], b@[k]),
        decreases n - i,
    {
        if !char_eq_ignore_case_exec(a.get_char(i), b.get_char(i)) {
            return false;
        }
        i = i + 1;
    }
    true
}

/// The position of the first header called `name`, if there is one.
pub fn find_header(headers: &Vec<(String, String)>, name: &str) -> (r: Option<usize>)
    ensures
        r is None <==> !has_header(headers_view(headers@), name@),
        r matches Some(i) ==> is_first_header(headers_view(headers@), name@, i as int),
{
    let ghost h = headers_view(headers@);
    let mut i: usize = 0;
    while i < headers.len()
        invariant
            h == headers_view(headers@),
            i <= headers.len(),
            forall|j: int| 0 <= j < i ==> !name_eq(#[trigger] h[j].0, name@),
        decreases headers.len() - i,
    {
        if names_equal(headers[i].0.as_str(), name) {
            proof {
                assert(h[i as int].0 == headers[i as int].0@);
                assert(is_first_header(h, name@, i as int));
            }
            return Some(i);
        }
        i = i + 1;
    }
    proof {
        assert forall|j: int| 0 <= j < h.len() implies !name_eq(#[trigger] h[j].0, name@) by {}
    }
    None
}

impl<B> Request<B> {
    /// A request with the given method and path, no headers, and `body`.
    pub fn new(method: &str, path: &str, body: B) -> (r: Self)
        ensures
            r.method@ == method@,
            r.path@ == path@,
            r.headers@.len() == 0,
            r.body == body,
    {
        Request { method: method.to_owned(), path: path.to_owned(), headers: Vec::new(), body }
    }

    /// The same request with one more header, after those it had.
    pub fn header(self, name: &str, value: &str) -> (r: Self)
        ensures
            r.method == self.method,
            r.path == self.path,
            headers_view(r.headers@) == headers_view(self.headers@).push((name@, value@)),
            r.body == self.body,
    {
        let mut headers = self.headers;
        headers.push((name.to_owned(), value.to_owned()));
        proof {
            assert(headers_view(headers@) =~= headers_view(self.headers@).push((name@, value@)));
        }
        Request { method: self.method, path: self.path, headers, body: self.body }
    }
}

} // verus!
