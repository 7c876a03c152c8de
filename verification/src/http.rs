//! The HTTP side of the runtime that serves decorated functions: reading the
//! request line and body of an incoming request, the route table that maps a
//! method and a path to a handler, and the text of the responses.

use vstd::prelude::*;
use vstd::string::{StrSliceExecFns, StringSliceAdditionalSpecFns};
use vstd::utf8::{valid_utf8, decode_utf8, is_ascii_chars};
use crate::text::{nat_decimal, push_char, push_str, push_u64};

verus! {

/// The text that `String::from_utf8_lossy` decodes from `bytes`.
pub uninterp spec fn lossy_text(bytes: Seq<u8>) -> Seq<char>;

/// The text that `str::to_uppercase` maps `s` to.
pub uninterp spec fn upper_text(s: Seq<char>) -> Seq<char>;

/// Decodes bytes as UTF-8, each invalid sequence becoming U+FFFD
/// (`String::from_utf8_lossy`). Its result is named; std documents that
/// well-formed UTF-8 comes back as the characters it encodes. How invalid
/// sequences are replaced is not stated.
#[verifier::external_body]
fn decode_lossy(bytes: &[u8]) -> (s: String)
    ensures
        s@ == lossy_text(bytes@),
        valid_utf8(bytes@) ==> s@ == decode_utf8(bytes@),
{
    String::from_utf8_lossy(bytes).into_owned()
}

/// The upper case of an ASCII character: `a` to `z` become `A` to `Z`, every
/// other character stays.
pub open spec fn ascii_upper_char(c: char) -> char {
    if 'a' <= c && c <= 'z' {
        ((c as u32 - 32) as u8) as char
    } else {
        c
    }
}

/// The upper case of an ASCII text, character by character.
pub open spec fn ascii_upper(s: Seq<char>) -> Seq<char> {
    Seq::new(s.len(), |i: int| ascii_upper_char(s[i]))
}

/// The Unicode upper case of `s` (`str::to_uppercase`). Its result is named;
/// of ASCII text it is the ASCII upper case, as the Unicode case mapping that
/// std documents gives it. Other characters' mappings are not stated.
#[verifier::external_body]
fn to_upper(s: &str) -> (r: String)
    ensures
        r@ == upper_text(s@),
        is_ascii_chars(s@) ==> r@ == ascii_upper(s@),
{
    s.to_uppercase()
}

/// The characters with the Unicode `White_Space` property, those that
/// `char::is_whitespace` accepts.
pub open spec fn is_space(c: char) -> bool {
    let u = c as u32;
    ||| 0x09 <= u <= 0x0D
    ||| u == 0x20
    ||| u == 0x85
    ||| u == 0xA0
    ||| u == 0x1680
    ||| 0x2000 <= u <= 0x200A
    ||| u == 0x2028
    ||| u == 0x2029
    ||| u == 0x202F
    ||| u == 0x205F
    ||| u == 0x3000
}

fn space(c: char) -> (r: bool)
    ensures
        r == is_space(c),
{
    let u = c as u32;
    (0x09 <= u && u <= 0x0D) || u == 0x20 || u == 0x85 || u == 0xA0 || u == 0x1680
        || (0x2000 <= u && u <= 0x200A) || u == 0x2028 || u == 0x2029 || u == 0x202F
        || u == 0x205F || u == 0x3000
}

/// The position of the first line feed at or after `i`, or the length.
pub open spec fn line_end(t: Seq<char>, i: int) -> int
    decreases t.len() - i,
{
    if i >= t.len() {
        t.len() as int
    } else if t[i] == '\n' {
        i
    } else {
        line_end(t, i + 1)
    }
}

/// The first line of `t` as `str::lines` yields it: up to the first line
/// feed, without a carriage return right before that feed; none for empty text.
pub open spec fn first_line(t: Seq<char>) -> Option<Seq<char>> {
    if t.len() == 0 {
        None
    } else {
        let e = line_end(t, 0);
        if e < t.len() && e > 0 && t[e - 1] == '\r' {
            Some(t.subrange(0, e - 1))
        } else {
            Some(t.subrange(0, e))
        }
    }
}

/// The first position at or after `i` that holds no space, or the length.
pub open spec fn skip_space(l: Seq<char>, i: int) -> int
    decreases l.len() - i,
{
    if i >= l.len() {
        l.len() as int
    } else if is_space(l[i]) {
        skip_space(l, i + 1)
    } else {
        i
    }
}

/// The first position at or after `i` that holds a space, or the length.
pub open spec fn word_end(l: Seq<char>, i: int) -> int
    decreases l.len() - i,
{
    if i >= l.len() {
        l.len() as int
    } else if is_space(l[i]) {
        i
    } else {
        word_end(l, i + 1)
    }
}

/// The first two words of `l` as `str::split_whitespace` yields them, if it
/// has two.
pub open spec fn first_two_words(l: Seq<char>) -> Option<(Seq<char>, Seq<char>)> {
    let a = skip_space(l, 0);
    if a >= l.len() {
        None
    } else {
        let b = word_end(l, a);
        let c = skip_space(l, b);
        if c >= l.len() {
            None
        } else {
            Some((l.subrange(a, b), l.subrange(c, word_end(l, c))))
        }
    }
}

/// Whether a blank line, `\r\n\r\n`, starts at `i`.
pub open spec fn blank_at(t: Seq<char>, i: int) -> bool {
    0 <= i && i + 4 <= t.len() && t[i] == '\r' && t[i + 1] == '\n' && t[i + 2] == '\r' && t[i + 3] == '\n'
}

/// The first position at or after `i` where a blank line starts.
pub open spec fn find_blank(t: Seq<char>, i: int) -> Option<int>
    decreases t.len() - i,
{
    if i + 4 > t.len() {
        None
    } else if blank_at(t, i) {
        Some(i)
    } else {
        find_blank(t, i + 1)
    }
}

/// The body of a request: the text after its first blank line, empty when
/// there is none.
pub open spec fn body_of(t: Seq<char>) -> Seq<char> {
    match find_blank(t, 0) {
        Some(i) => t.subrange(i + 4, t.len() as int),
        None => Seq::empty(),
    }
}

/// A request as read by the server: upper-cased method, path, body.
pub struct HttpRequest {
    pub method: String,
    pub path: String,
    pub body: String,
}

/// The request that `bytes` hold, when their first line has a method and a
/// path: the method upper-cased, the path as written, and the body.
pub open spec fn spec_parse_request(bytes: Seq<u8>) -> Option<(Seq<char>, Seq<char>, Seq<char>)> {
    match spec_parse_request_text(lossy_text(bytes)) {
        None => None,
        Some((m, p, b)) => Some((upper_text(m), p, b)),
    }
}

/// The characters of `s`, in order.
fn chars_of(s: &str) -> (v: Vec<char>)
    ensures
        v@ == s@,
{
    let n = s.unicode_len();
    let mut v: Vec<char> = Vec::new();
    let mut i: usize = 0;
    while i < n
        invariant
            n == s@.len(),
            i <= n,
            v@ == s@.take(i as int),
        decreases n - i,
    {
        v.push(s.get_char(i));
        assert(s@.take(i + 1) =~= s@.take(i as int).push(s@[i as int]));
        i += 1;
    }
    assert(s@.take(n as int) =~= s@);
    v
}

/// The text of `v` from `a` up to `b`.
fn text_between(v: &Vec<char>, a: usize, b: usize) -> (s: String)
    requires
        a <= b <= v@.len(),
    ensures
        s@ == v@.subrange(a as int, b as int),
{
    let mut s = String::new();
    let mut i = a;
    while i < b
        invariant
            a <= i <= b,
            b <= v@.len(),
            s@ == v@.subrange(a as int, i as int),
        decreases b - i,
    {
        push_char(&mut s, v[i]);
        assert(v@.subrange(a as int, i + 1) =~= v@.subrange(a as int, i as int).push(v@[i as int]));
        i += 1;
    }
    s
}

fn find_line_end(t: &Vec<char>) -> (e: usize)
    ensures
        e as int == line_end(t@, 0),
        e <= t@.len(),
{
    let mut i: usize = 0;
    while i < t.len()
        invariant
            i <= t@.len(),
            line_end(t@, 0) == line_end(t@, i as int),
        decreases t@.len() - i,
    {
        if t[i] == '\n' {
            return i;
        }
        i += 1;
    }
    i
}

fn find_skip_space(l: &Vec<char>, start: usize) -> (e: usize)
    requires
        start <= l@.len(),
    ensures
        e as int == skip_space(l@, start as int),
        start <= e <= l@.len(),
{
    let mut i = start;
    while i < l.len()
        invariant
            start <= i <= l@.len(),
            skip_space(l@, start as int) == skip_space(l@, i as int),
        decreases l@.len() - i,
    {
        if !space(l[i]) {
            return i;
        }
        i += 1;
    }
    i
}

fn find_word_end(l: &Vec<char>, start: usize) -> (e: usize)
    requires
        start <= l@.len(),
    ensures
        e as int == word_end(l@, start as int),
        start <= e <= l@.len(),
{
    let mut i = start;
    while i < l.len()
        invariant
            start <= i <= l@.len(),
            word_end(l@, start as int) == word_end(l@, i as int),
        decreases l@.len() - i,
    {
        if space(l[i]) {
            return i;
        }
        i += 1;
    }
    i
}

fn find_blank_line(t: &Vec<char>) -> (r: Option<usize>)
    ensures
        match r {
            Some(i) => find_blank(t@, 0) == Some(i as int) && i + 4 <= t@.len(),
            None => find_blank(t@, 0) is None,
        },
{
    let mut i: usize = 0;
    while i < t.len() && t.len() - i >= 4
        invariant
            i <= t@.len(),
            find_blank(t@, 0) == find_blank(t@, i as int),
        decreases t@.len() - i,
    {
        if t[i] == '\r' && t[i + 1] == '\n' && t[i + 2] == '\r' && t[i + 3] == '\n' {
            return Some(i);
        }
        i += 1;
    }
    None
}

/// The method as written, the path and the body of a request text, when its
/// first line holds a method and a path.
pub open spec fn spec_parse_request_text(t: Seq<char>) -> Option<(Seq<char>, Seq<char>, Seq<char>)> {
    match first_line(t) {
        None => None,
        Some(l) => match first_two_words(l) {
            None => None,
            Some((m, p)) => Some((m, p, body_of(t))),
        },
    }
}

/// Reads the method (as written), path and body of a request text; `None`
/// when its first line does not hold a method and a path.
pub fn parse_request_text(text: &str) -> (r: Option<HttpRequest>)
    ensures
        match r {
            Some(req) => spec_parse_request_text(text@) == Some((req.method@, req.path@, req.body@)),
            None => spec_parse_request_text(text@) is None,
        },
{
    let t = chars_of(text);
    if t.len() == 0 {
        return None;
    }
    let e = find_line_end(&t);
    let line_len = if e < t.len() && e > 0 && t[e - 1] == '\r' { e - 1 } else { e };
    let line = text_between(&t, 0, line_len);
    let l = chars_of(line.as_str());
    let a = find_skip_space(&l, 0);
    if a >= l.len() {
        return None;
    }
    let b = find_word_end(&l, a);
    let c = find_skip_space(&l, b);
    if c >= l.len() {
        return None;
    }
    let d = find_word_end(&l, c);
    let method = text_between(&l, a, b);
    let path = text_between(&l, c, d);
    let body = match find_blank_line(&t) {
        Some(i) => text_between(&t, i + 4, t.len()),
        None => String::new(),
    };
    Some(HttpRequest { method, path, body })
}

/// Reads the method, path and body of a request from its bytes, the method
/// upper-cased; `None` when its first line does not hold a method and a path.
pub fn parse_request(bytes: &[u8]) -> (r: Option<HttpRequest>)
    ensures
        match r {
            Some(req) => spec_parse_request(bytes@) == Some((req.method@, req.path@, req.body@)),
            None => spec_parse_request(bytes@) is None,
        },
        valid_utf8(bytes@) ==> match r {
            Some(req) => spec_parse_request_text(decode_utf8(bytes@)) matches Some((m, p, b))
                && req.path@ == p && req.body@ == b
                && (is_ascii_chars(m) ==> req.method@ == ascii_upper(m)),
            None => spec_parse_request_text(decode_utf8(bytes@)) is None,
        },
{
    let text = decode_lossy(bytes);
    match parse_request_text(text.as_str()) {
        Some(req) => {
            let method = to_upper(req.method.as_str());
            Some(HttpRequest { method, path: req.path, body: req.body })
        },
        None => None,
    }
}

/// The response that carries a handler's reply: status 200, a JSON content
/// type, and the byte length of `body`.
pub open spec fn ok_response_text(body: Seq<char>, body_len: nat) -> Seq<char> {
    "HTTP/1.1 200 OK\r\nContent-Type: application/json\r\nContent-Length: "@ + nat_decimal(body_len)
        + "\r\n\r\n"@ + body
}

/// The response that carries a handler's reply.
pub fn ok_response(body: &str) -> (r: String)
    requires
        body.spec_bytes().len() <= usize::MAX,
    ensures
        r@ == ok_response_text(body@, body.spec_bytes().len()),
{
    let mut r = String::new();
    push_str(&mut r, "HTTP/1.1 200 OK\r\nContent-Type: application/json\r\nContent-Length: ");
    push_u64(&mut r, body.len() as u64);
    push_str(&mut r, "\r\n\r\n");
    push_str(&mut r, body);
    r
}

/// The response to a request that no route matches.
pub fn not_found_response() -> (r: &'static str)
    ensures
        r@ == "HTTP/1.1 404 NOT FOUND\r\nContent-Length: 9\r\n\r\nNot Found"@,
{
    "HTTP/1.1 404 NOT FOUND\r\nContent-Length: 9\r\n\r\nNot Found"
}

/// The routes of a server, keyed by upper-cased method and path; the later of
/// two registrations of one key wins.
pub struct RouteTable {
    entries: Vec<(String, String, usize)>,
}

/// The key of each entry, in order.
pub open spec fn entry_keys(e: Seq<(String, String, usize)>) -> Seq<(Seq<char>, Seq<char>)> {
    Seq::new(e.len(), |i: int| (e[i].0@, e[i].1@))
}

impl View for RouteTable {
    type V = Map<(Seq<char>, Seq<char>), usize>;

    closed spec fn view(&self) -> Map<(Seq<char>, Seq<char>), usize> {
        Map::new(
            |k: (Seq<char>, Seq<char>)| entry_keys(self.entries@).contains(k),
            |k: (Seq<char>, Seq<char>)| {
                let i = choose|i: int| 0 <= i < self.entries@.len() && entry_keys(self.entries@)[i] == k;
                self.entries@[i].2
            },
        )
    }
}

impl RouteTable {
    /// Each key occurs once.
    pub closed spec fn wf(&self) -> bool {
        forall|i: int, j: int|
            0 <= i < j < self.entries@.len() ==> entry_keys(self.entries@)[i] != entry_keys(self.entries@)[j]
    }

    /// A table without routes.
    pub fn new() -> (t: Self)
        ensures
            t.wf(),
            t@ == Map::<(Seq<char>, Seq<char>), usize>::empty(),
    {
        let t = RouteTable { entries: Vec::new() };
        assert(t@ =~= Map::<(Seq<char>, Seq<char>), usize>::empty());
        t
    }

    fn position(&self, method: &String, path: &String) -> (r: Option<usize>)
        requires
            self.wf(),
        ensures
            match r {
                Some(i) => i < self.entries@.len() && entry_keys(self.entries@)[i as int] == (method@, path@),
                None => !entry_keys(self.entries@).contains((method@, path@)),
            },
    {
        let mut i: usize = 0;
        while i < self.entries.len()
            invariant
                i <= self.entries@.len(),
                forall|j: int| 0 <= j < i ==> entry_keys(self.entries@)[j] != (method@, path@),
            decreases self.entries@.len() - i,
        {
            if self.entries[i].0 == *method && self.entries[i].1 == *path {
                return Some(i);
            }
            i += 1;
        }
        None
    }

    /// Registers `handler` for the upper case of `method` and for `path`.
    pub fn insert(&mut self, method: &str, path: &str, handler: usize)
        requires
            old(self).wf(),
        ensures
            final(self).wf(),
            final(self)@ == old(self)@.insert((upper_text(method@), path@), handler),
    {
        let m = to_upper(method);
        self.insert_key(m, path, handler);
    }

    /// Registers `handler` under the key `(method, path)`, replacing the
    /// handler of that key if it has one.
    pub fn insert_key(&mut self, m: String, path: &str, handler: usize)
        requires
            old(self).wf(),
        ensures
            final(self).wf(),
            final(self)@ == old(self)@.insert((m@, path@), handler),
    {
        let p = path.to_owned();
        let ghost key = (m@, p@);
        match self.position(&m, &p) {
            Some(i) => {
                let ghost old_entries = self.entries@;
                self.entries.set(i, (m, p, handler));
                assert(entry_keys(self.entries@) =~= entry_keys(old_entries));
                assert(self@ =~= old(self)@.insert(key, handler)) by {
                    assert forall|k| #[trigger] self@.contains_key(k) implies self@[k] == old(self)@.insert(key, handler)[k] by {
                        let a = choose|a: int| 0 <= a < self.entries@.len() && entry_keys(self.entries@)[a] == k;
                        if k == key {
                            assert(a == i);
                        } else {
                            let b = choose|b: int| 0 <= b < old_entries.len() && entry_keys(old_entries)[b] == k;
                            assert(a == b);
                        }
                    }
                }
            },
            None => {
                let ghost old_entries = self.entries@;
                self.entries.push((m, p, handler));
                assert(entry_keys(self.entries@) =~= entry_keys(old_entries).push(key));
                let ghost n = old_entries.len() as int;
                assert(entry_keys(self.entries@)[n] == key);
                assert(self@ =~= old(self)@.insert(key, handler)) by {
                    assert forall|k| #[trigger] self@.contains_key(k) implies self@[k] == old(self)@.insert(key, handler)[k] by {
                        let a = choose|a: int| 0 <= a < self.entries@.len() && entry_keys(self.entries@)[a] == k;
                        if k == key {
                            assert(a == n);
                        } else {
                            let b = choose|b: int| 0 <= b < old_entries.len() && entry_keys(old_entries)[b] == k;
                            assert(entry_keys(self.entries@)[b] == k);
                            assert(a == b);
                        }
                    }
                    assert forall|k| #[trigger] old(self)@.insert(key, handler).contains_key(k) implies self@.contains_key(k) by {
                        if k != key {
                            let b = choose|b: int| 0 <= b < old_entries.len() && entry_keys(old_entries)[b] == k;
                            assert(entry_keys(self.entries@)[b] == k);
                        }
                    }
                }
            },
        }
    }

    /// The handler registered for `method` and `path`.
    pub fn lookup(&self, method: &str, path: &str) -> (r: Option<usize>)
        requires
            self.wf(),
        ensures
            r == (if self@.contains_key((method@, path@)) { Some(self@[(method@, path@)]) } else { None }),
    {
        let m = method.to_owned();
        let p = path.to_owned();
        match self.position(&m, &p) {
            Some(i) => {
                proof {
                    let k = (method@, path@);
                    assert(entry_keys(self.entries@)[i as int] == k);
                    let a = choose|a: int| 0 <= a < self.entries@.len() && entry_keys(self.entries@)[a] == k;
                    assert(a == i);
                }
                Some(self.entries[i].2)
            },
            None => None,
        }
    }
}

/// The code of a character after ASCII lower-casing.
pub open spec fn ascii_lower(c: char) -> u32 {
    let u = c as u32;
    if 0x41 <= u <= 0x5A { (u + 32) as u32 } else { u }
}

/// Whether two texts are equal when ASCII letters are compared without case
/// (`str::eq_ignore_ascii_case`).
pub open spec fn eq_ignore_ascii_case(a: Seq<char>, b: Seq<char>) -> bool {
    a.len() == b.len() && forall|i: int| 0 <= i < a.len() ==> ascii_lower(#[trigger] a[i]) == ascii_lower(b[i])
}

fn lower_char(c: char) -> (r: u32)
    ensures
        r == ascii_lower(c),
{
    let u = c as u32;
    if 0x41 <= u && u <= 0x5A { u + 32 } else { u }
}

fn same_ignoring_case(a: &str, b: &str) -> (r: bool)
    ensures
        r == eq_ignore_ascii_case(a@, b@),
{
    let x = chars_of(a);
    let y = chars_of(b);
    if x.len() != y.len() {
        return false;
    }
    let mut i: usize = 0;
    while i < x.len()
        invariant
            x@ == a@,
            y@ == b@,
            x@.len() == y@.len(),
            i <= x@.len(),
            forall|j: int| 0 <= j < i ==> ascii_lower(#[trigger] a@[j]) == ascii_lower(b@[j]),
        decreases x@.len() - i,
    {
        if lower_char(x[i]) != lower_char(y[i]) {
            return false;
        }
        i += 1;
    }
    true
}

/// The first route, in registration order, whose method equals `method`
/// without regard to ASCII case and whose path is `path`.
pub open spec fn first_route(routes: Seq<(Seq<char>, Seq<char>)>, method: Seq<char>, path: Seq<char>) -> Option<int>
    decreases routes.len(),
{
    if routes.len() == 0 {
        None
    } else {
        match first_route(routes.drop_last(), method, path) {
            Some(i) => Some(i),
            None => if eq_ignore_ascii_case(routes.last().0, method) && routes.last().1 == path {
                Some(routes.len() - 1)
            } else {
                None
            },
        }
    }
}

pub open spec fn routes_view(routes: Seq<(String, String)>) -> Seq<(Seq<char>, Seq<char>)> {
    Seq::new(routes.len(), |i: int| (routes[i].0@, routes[i].1@))
}

/// The position of the first registered route that serves `method` and
/// `path`, methods compared without regard to ASCII case.
pub fn match_route(routes: &Vec<(String, String)>, method: &str, path: &str) -> (r: Option<usize>)
    ensures
        match r {
            Some(i) => first_route(routes_view(routes@), method@, path@) == Some(i as int),
            None => first_route(routes_view(routes@), method@, path@) is None,
        },
{
    let ghost rv = routes_view(routes@);
    let p = path.to_owned();
    let mut i: usize = 0;
    assert(rv.take(0) =~= Seq::<(Seq<char>, Seq<char>)>::empty());
    while i < routes.len()
        invariant
            i <= routes@.len(),
            rv == routes_view(routes@),
            p@ == path@,
            first_route(rv.take(i as int), method@, path@) is None,
        decreases routes@.len() - i,
    {
        assert(rv.take(i + 1).drop_last() =~= rv.take(i as int));
        if same_ignoring_case(routes[i].0.as_str(), method) && routes[i].1 == p {
            assert(first_route(rv.take(i + 1), method@, path@) == Some(i as int));
            assert(rv.take(routes@.len() as int) =~= rv);
            proof {
                lemma_first_route_prefix(rv, method@, path@, i as int + 1);
            }
            return Some(i);
        }
        i += 1;
    }
    assert(rv.take(routes@.len() as int) =~= rv);
    None
}

proof fn lemma_first_route_prefix(rv: Seq<(Seq<char>, Seq<char>)>, method: Seq<char>, path: Seq<char>, k: int)
    requires
        0 <= k <= rv.len(),
        first_route(rv.take(k), method, path) is Some,
    ensures
        first_route(rv, method, path) == first_route(rv.take(k), method, path),
    decreases rv.len() - k,
{
    if k < rv.len() {
        assert(rv.take(k + 1).drop_last() =~= rv.take(k));
        lemma_first_route_prefix(rv, method, path, k + 1);
    } else {
        assert(rv.take(k) =~= rv);
    }
}

/// A route registered for a key is found under that key.
pub proof fn law_lookup_after_insert(
    m: Map<(Seq<char>, Seq<char>), usize>,
    method: Seq<char>,
    path: Seq<char>,
    handler: usize,
)
    ensures
        m.insert((upper_text(method), path), handler).contains_key((upper_text(method), path)),
        m.insert((upper_text(method), path), handler)[(upper_text(method), path)] == handler,
{
}

/// Registering a route leaves the routes of every other key as they were.
pub proof fn law_insert_keeps_other_routes(
    m: Map<(Seq<char>, Seq<char>), usize>,
    method: Seq<char>,
    path: Seq<char>,
    handler: usize,
    other: (Seq<char>, Seq<char>),
)
    requires
        other != (upper_text(method), path),
    ensures
        m.insert((upper_text(method), path), handler).contains_key(other) == m.contains_key(other),
        m.contains_key(other) ==> m.insert((upper_text(method), path), handler)[other] == m[other],
{
}

} // verus!
