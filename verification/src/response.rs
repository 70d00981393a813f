//! Responses and header lists as plain values.
use crate::status::StatusCode;
use crate::text::chars_of;
use vstd::prelude::*;
use vstd::string::StrSliceExecFns;

verus! {

/// The bytes of a text: its UTF-8 encoding.
pub open spec fn text_bytes(text: Seq<char>) -> Seq<u8> {
    vstd::utf8::encode_utf8(text)
}

/// One header line. A value is bytes, as it need not be text.
#[derive(Debug)]
pub struct Header {
    pub name: String,
    pub value: Vec<u8>,
}

/// The mathematical value of a [`Header`].
pub struct HeaderView {
    pub name: Seq<char>,
    pub value: Seq<u8>,
}

impl View for Header {
    type V = HeaderView;

    open spec fn view(&self) -> HeaderView {
        HeaderView { name: self.name@, value: self.value@ }
    }
}

/// A response with its body in memory.
#[derive(Debug)]
pub struct HttpResponse {
    pub status: StatusCode,
    pub headers: Vec<Header>,
    pub body: Vec<u8>,
}

/// The mathematical value of a [`HttpResponse`].
#[verifier::ext_equal]
pub struct HttpResponseView {
    pub status: u16,
    pub headers: Seq<HeaderView>,
    pub body: Seq<u8>,
}

impl View for HttpResponse {
    type V = HttpResponseView;

    open spec fn view(&self) -> HttpResponseView {
        HttpResponseView {
            status: self.status@,
            headers: self.headers@.map_values(|h: Header| h@),
            body: self.body@,
        }
    }
}

/// The lower-case form of an ASCII letter; any other character as it is.
pub open spec fn ascii_lower(c: char) -> char {
    if 'A' <= c <= 'Z' {
        ((c as u8) + 32) as char
    } else {
        c
    }
}

/// Two header names are the same: equal but for the case of ASCII letters.
pub open spec fn same_name(a: Seq<char>, b: Seq<char>) -> bool {
    &&& a.len() == b.len()
    &&& forall|i: int| 0 <= i < a.len() ==> ascii_lower(#[trigger] a[i]) == ascii_lower(b[i])
}

fn lower(c: char) -> (r: char)
    ensures
        r == ascii_lower(c),
{
    if 'A' <= c && c <= 'Z' {
        ((c as u8) + 32) as char
    } else {
        c
    }
}

/// [`same_name`] on strings.
pub fn names_match(a: &str, b: &str) -> (r: bool)
    ensures
        r == same_name(a@, b@),
{
    let x = chars_of(a);
    let y = chars_of(b);
    if x.len() != y.len() {
        return false;
    }
    let mut i: usize = 0;
    while i < x.len()
        invariant
            i <= x.len(),
            x.len() == y.len(),
            x@ == a@,
            y@ == b@,
            forall|k: int| 0 <= k < i ==> ascii_lower(#[trigger] x@[k]) == ascii_lower(y@[k]),
        decreases x.len() - i,
    {
        if lower(x[i]) != lower(y[i]) {
            return false;
        }
        i = i + 1;
    }
    true
}

/// The headers of `headers` whose name is not `name`, in order.
pub open spec fn without_header(headers: Seq<HeaderView>, name: Seq<char>) -> Seq<HeaderView>
    decreases headers.len(),
{
    if headers.len() == 0 {
        Seq::empty()
    } else if same_name(headers.last().name, name) {
        without_header(headers.drop_last(), name)
    } else {
        without_header(headers.drop_last(), name).push(headers.last())
    }
}

/// How many headers of `headers` have the name `name`.
pub open spec fn count_header(headers: Seq<HeaderView>, name: Seq<char>) -> nat
    decreases headers.len(),
{
    if headers.len() == 0 {
        0
    } else if same_name(headers.last().name, name) {
        count_header(headers.drop_last(), name) + 1
    } else {
        count_header(headers.drop_last(), name)
    }
}

/// `headers` with one header `name: value` in place of every header of that name.
pub open spec fn with_header(headers: Seq<HeaderView>, name: Seq<char>, value: Seq<u8>) -> Seq<
    HeaderView,
> {
    without_header(headers, name).push(HeaderView { name, value })
}

/// Nothing of the name is left once its headers are taken out.
pub proof fn lemma_without_header_has_none(headers: Seq<HeaderView>, name: Seq<char>)
    ensures
        count_header(without_header(headers, name), name) == 0,
    decreases headers.len(),
{
    if headers.len() > 0 {
        lemma_without_header_has_none(headers.drop_last(), name);
        if !same_name(headers.last().name, name) {
            let rest = without_header(headers.drop_last(), name);
            assert(rest.push(headers.last()).drop_last() == rest);
        }
    }
}

/// After [`with_header`] exactly one header has the name, the last one, and
/// it holds the value.
pub proof fn lemma_with_header_has_one(headers: Seq<HeaderView>, name: Seq<char>, value: Seq<u8>)
    ensures
        count_header(with_header(headers, name, value), name) == 1,
        with_header(headers, name, value).last() == (HeaderView { name, value }),
{
    lemma_without_header_has_none(headers, name);
    let rest = without_header(headers, name);
    assert(rest.push(HeaderView { name, value }).drop_last() == rest);
}

/// The list with every header named `name` replaced by one `name: value`,
/// which comes last.
pub fn set_header(headers: Vec<Header>, name: &str, value: Vec<u8>) -> (r: Vec<Header>)
    ensures
        r@.map_values(|h: Header| h@) == with_header(
            headers@.map_values(|h: Header| h@),
            name@,
            value@,
        ),
{
    let ghost all = headers@.map_values(|h: Header| h@);
    let mut out: Vec<Header> = Vec::new();
    proof {
        assert(all.take(0) =~= Seq::<HeaderView>::empty());
        assert(out@.map_values(|h: Header| h@) =~= Seq::<HeaderView>::empty());
    }
    for h in it: headers
        invariant
            it.seq().map_values(|h: Header| h@) == all,
            out@.map_values(|h: Header| h@) == without_header(all.take(it.index()), name@),
    {
        proof {
            assert(h@ == all[it.index()]);
            assert(all.take(it.index() + 1).drop_last() =~= all.take(it.index()));
            assert(out@.push(h).map_values(|h: Header| h@) =~= out@.map_values(|h: Header| h@).push(
                h@,
            ));
        }
        if !names_match(h.name.as_str(), name) {
            out.push(h);
        }
    }
    let last = Header { name: name.to_owned(), value };
    proof {
        assert(all.take(all.len() as int) =~= all);
        assert(out@.push(last).map_values(|h: Header| h@) =~= out@.map_values(|h: Header| h@).push(
            last@,
        ));
    }
    out.push(last);
    out
}

/// The header `name: value` with a text as its value.
pub fn text_header(name: &str, value: &str) -> (r: Header)
    ensures
        r@ == (HeaderView { name: name@, value: text_bytes(value@) }),
{
    Header { name: name.to_owned(), value: value.as_bytes_vec() }
}

/// The header `Content-Type: application/json`.
pub open spec fn json_content_type() -> HeaderView {
    HeaderView { name: "Content-Type"@, value: text_bytes("application/json"@) }
}

impl HttpResponse {
    /// A response with the one header `Content-Type: application/json` and
    /// `body` as its body.
    pub fn json(status: StatusCode, body: &str) -> (r: HttpResponse)
        ensures
            r@ == (HttpResponseView {
                status: status@,
                headers: seq![json_content_type()],
                body: text_bytes(body@),
            }),
    {
        let mut headers: Vec<Header> = Vec::new();
        headers.push(text_header("Content-Type", "application/json"));
        let r = HttpResponse { status, headers, body: body.as_bytes_vec() };
        assert(r@.headers =~= seq![json_content_type()]);
        r
    }

    /// A response without headers.
    pub fn plain(status: StatusCode, body: Vec<u8>) -> (r: HttpResponse)
        ensures
            r@ == (HttpResponseView { status: status@, headers: Seq::empty(), body: body@ }),
    {
        let headers: Vec<Header> = Vec::new();
        let r = HttpResponse { status, headers, body };
        assert(r@.headers =~= Seq::<HeaderView>::empty());
        r
    }
}

} // verus!
