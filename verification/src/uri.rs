//! Request URLs: which path and query strings are accepted, and how the URL of
//! a path on a given address reads.
use hyper::Uri;
use vstd::prelude::*;

use crate::addr::denotes_addr;
use crate::addr::is_host_port;
use crate::addr::law_addr_is_host_port;
use crate::addr::law_addr_text_denotes;
use crate::addr::SocketAddr;

verus! {

/// A URI of the `http` crate. Verus sees nothing inside it.
#[verifier::external_type_specification]
#[verifier::external_body]
pub struct ExUri(hyper::Uri);

/// A request URL.
#[derive(Debug)]
pub struct Url {
    /// The URL as the HTTP crates take it.
    pub uri: Uri,
    /// The URL as it is written.
    pub text: String,
}

/// What stands in `s` before the first `mark`; all of `s` if there is none.
pub open spec fn before(s: Seq<char>, mark: char) -> Seq<char>
    decreases s.len(),
{
    if s.len() == 0 || s[0] == mark {
        Seq::empty()
    } else {
        seq![s[0]] + before(s.skip(1), mark)
    }
}

/// The path of a request target: what stands before the first `?` or `#`.
pub open spec fn path_part(target: Seq<char>) -> Seq<char> {
    before(before(target, '#'), '?')
}

/// The query of a request target with its question mark, without a fragment.
/// Empty if there is no question mark before the first `#`.
pub open spec fn query_part(target: Seq<char>) -> Seq<char> {
    before(target, '#').skip(path_part(target).len() as int)
}

/// Whether the `http` crate misses the question mark of `target`. It keeps 16
/// bits of its position, and takes all of them set for no question mark.
pub open spec fn misses_query(target: Seq<char>) -> bool {
    query_part(target).len() > 0 && path_part(target).len() % 0x1_0000 == 0xffff
}

/// What the `http` crate keeps of `target`: all but the fragment. Where it
/// misses the question mark, it does not look for a fragment either.
pub open spec fn kept_part(target: Seq<char>) -> Seq<char> {
    if misses_query(target) {
        target
    } else {
        before(target, '#')
    }
}

/// Whether `c` may stand in a path as it is. Every other character has to be
/// percent-encoded.
pub open spec fn is_path_char(c: char) -> bool {
    '!' <= c <= '~' && c != '#' && c != '<' && c != '>' && c != '?' && c != '`'
}

/// Whether `c` may stand in a query as it is.
pub open spec fn is_query_char(c: char) -> bool {
    '!' <= c <= '~' && c != '"' && c != '#' && c != '<' && c != '>'
}

/// Whether `target` is accepted as a path and query string. What follows a `#`
/// is not looked at, nor is what follows a question mark that is missed.
pub open spec fn is_path_and_query(target: Seq<char>) -> bool {
    &&& forall|i: int|
        0 <= i < path_part(target).len() ==> is_path_char(#[trigger] path_part(target)[i])
    &&& misses_query(target) || forall|i: int|
        0 <= i < query_part(target).len() ==> is_query_char(#[trigger] query_part(target)[i])
}

/// How `target` reads in a URL: as far as it is kept, and with the path `/` in
/// place of an empty path. The question mark is written where the 16 bits that
/// are kept of its position say, which is another place behind a path too long
/// for them.
pub open spec fn shown_target(target: Seq<char>) -> Seq<char> {
    let kept = kept_part(target);
    let mark = path_part(target).len() % 0x1_0000;
    if kept.len() == 0 {
        "/"@
    } else if query_part(target).len() == 0 || misses_query(target) {
        kept
    } else if mark == 0 {
        "/"@ + kept.update(0, '?')
    } else {
        kept.update(mark as int, '?')
    }
}

/// How the URL of `target` on the address `addr` reads.
pub open spec fn url_text(addr: SocketAddr, target: Seq<char>) -> Seq<char> {
    "http"@ + "://"@ + addr.text() + shown_target(target)
}

/// The URI that `http::uri::Builder` builds of a scheme, an authority and a
/// path and query string; `None` where the builder reports an error.
pub uninterp spec fn built_uri(
    scheme: Seq<char>,
    authority: Seq<char>,
    path_and_query: Seq<char>,
) -> Option<Uri>;

/// Calls `http::Uri::builder` with a scheme, an authority and a path and query
/// string, and writes out the URI that it builds with its `Display`
/// implementation.
///
/// What is trusted: the URI is a function of the three strings. With the scheme
/// `http` and a numeric host and port, the builder succeeds exactly on the
/// strings that `is_path_and_query` describes, and the URI is written as the
/// scheme, `://`, the authority and the path and query string, the latter as
/// `shown_target` says.
#[verifier::external_body]
fn build_uri(scheme: &str, authority: &str, path_and_query: &str) -> (built: Option<(Uri, String)>)
    ensures
        match built {
            Some((uri, _)) => built_uri(scheme@, authority@, path_and_query@) == Some(uri),
            None => built_uri(scheme@, authority@, path_and_query@) is None,
        },
        scheme@ == "http"@ && is_host_port(authority@) ==> (built is Some <==> is_path_and_query(
            path_and_query@,
        )),
        built matches Some((_, text)) ==> (scheme@ == "http"@ && is_host_port(authority@) ==> text@
            == scheme@ + "://"@ + authority@ + shown_target(path_and_query@)),
{
    let uri = Uri::builder().scheme(scheme).authority(authority).path_and_query(path_and_query);
    let uri = uri.build().ok()?;
    let text = uri.to_string();
    Some((uri, text))
}

/// Whether `url` is the URL of `target` on the address `addr`.
pub open spec fn is_url_of(url: Url, addr: SocketAddr, target: Seq<char>) -> bool {
    &&& built_uri("http"@, addr.text(), target) == Some(url.uri)
    &&& url.text@ == url_text(addr, target)
}

/// Builds the request URL of a path and query string on the given address;
/// `None` if the string is not acceptable.
pub fn try_url(addr: &SocketAddr, path_and_query: &str) -> (url: Option<Url>)
    ensures
        url is Some <==> is_path_and_query(path_and_query@),
        url matches Some(url) ==> is_url_of(url, *addr, path_and_query@),
{
    proof {
        law_addr_is_host_port(*addr);
    }
    let authority = addr.to_text();
    match build_uri("http", authority.as_str(), path_and_query) {
        Some((uri, text)) => Some(Url { uri, text }),
        None => None,
    }
}

/// What stands before a mark, and the rest, make up the whole.
proof fn lemma_before(s: Seq<char>, mark: char)
    ensures
        before(s, mark).len() <= s.len(),
        before(s, mark) == s.take(before(s, mark).len() as int),
        forall|i: int| 0 <= i < before(s, mark).len() ==> #[trigger] before(s, mark)[i] != mark,
        before(s, mark).len() < s.len() ==> s[before(s, mark).len() as int] == mark,
    decreases s.len(),
{
    if s.len() != 0 && s[0] != mark {
        let rest = s.skip(1);
        lemma_before(rest, mark);
        assert(before(s, mark) =~= s.take(before(s, mark).len() as int));
        assert forall|i: int| 0 <= i < before(s, mark).len() implies #[trigger] before(
            s,
            mark,
        )[i] != mark by {
            if i > 0 {
                assert(before(s, mark)[i] == before(rest, mark)[i - 1]);
            }
        }
    } else {
        assert(before(s, mark) =~= s.take(0));
    }
}

/// A string in which the mark does not occur stands before the mark whole.
proof fn lemma_before_absent(s: Seq<char>, mark: char)
    requires
        forall|i: int| 0 <= i < s.len() ==> #[trigger] s[i] != mark,
    ensures
        before(s, mark) == s,
{
    lemma_before(s, mark);
    assert(before(s, mark).len() == s.len());
    assert(s.take(s.len() as int) =~= s);
}

/// A non-empty path of characters that need no encoding is accepted, and its
/// URL is `http://`, the address and the path, unchanged.
pub proof fn law_plain_path(addr: SocketAddr, path: Seq<char>)
    requires
        path.len() > 0,
        forall|i: int| 0 <= i < path.len() ==> is_path_char(#[trigger] path[i]),
    ensures
        is_path_and_query(path),
        url_text(addr, path) == "http"@ + "://"@ + addr.text() + path,
{
    lemma_before_absent(path, '#');
    lemma_before_absent(path, '?');
    assert(query_part(path) =~= Seq::<char>::empty());
}

/// A non-empty path and a query of characters that need no encoding are
/// accepted together, and their URL holds both unchanged. Left out are the paths
/// so long that the question mark is written in another place.
pub proof fn law_plain_path_with_query(addr: SocketAddr, path: Seq<char>, query: Seq<char>)
    requires
        0 < path.len(),
        path.len() < 0x1_0000 || path.len() % 0x1_0000 == 0xffff,
        forall|i: int| 0 <= i < path.len() ==> is_path_char(#[trigger] path[i]),
        forall|i: int| 0 <= i < query.len() ==> is_query_char(#[trigger] query[i]),
    ensures
        is_path_and_query(path + "?"@ + query),
        url_text(addr, path + "?"@ + query) == "http"@ + "://"@ + addr.text() + (path + "?"@
            + query),
{
    reveal_strlit("?");
    let target = path + "?"@ + query;
    lemma_before_absent(target, '#');
    lemma_before(target, '?');
    assert(target[path.len() as int] == '?');
    assert(path_part(target).len() == path.len()) by {
        if path_part(target).len() < path.len() {
            assert(target[path_part(target).len() as int] == path[path_part(target).len() as int]);
        } else if path_part(target).len() > path.len() {
            assert(path_part(target)[path.len() as int] == target[path.len() as int]);
        }
    }
    assert(path_part(target) =~= path);
    assert(query_part(target) =~= "?"@ + query);
    assert(target.update(path.len() as int, '?') =~= target);
}

/// A fragment does not reach the URL, but for a target whose question mark is
/// missed: with or without one, a target is accepted or not alike, and reads
/// alike.
pub proof fn law_fragment_is_dropped(addr: SocketAddr, target: Seq<char>, fragment: Seq<char>)
    requires
        !misses_query(target),
    ensures
        is_path_and_query(target + "#"@ + fragment) == is_path_and_query(target),
        url_text(addr, target + "#"@ + fragment) == url_text(addr, target),
{
    reveal_strlit("#");
    let whole = target + "#"@ + fragment;
    lemma_before(whole, '#');
    lemma_before(target, '#');
    let n = before(whole, '#').len() as int;
    let m = before(target, '#').len() as int;
    assert(whole[target.len() as int] == '#');
    assert(n == m) by {
        if n < m {
            assert(before(target, '#')[n] == target[n]);
            assert(whole[n] == target[n]);
        } else if m < n {
            assert(before(whole, '#')[m] == whole[m]);
            if m < target.len() {
                assert(whole[m] == target[m]);
            }
        }
    }
    assert(before(whole, '#') =~= before(target, '#'));
    assert(path_part(whole) == path_part(target));
    assert(query_part(whole) == query_part(target));
}

/// Whether `text` is an `http` URL that names the address `addr` and ends in
/// `rest`.
pub open spec fn is_http_text(text: Seq<char>, addr: SocketAddr, rest: Seq<char>) -> bool {
    exists|authority: Seq<char>|
        denotes_addr(authority, addr) && text == #[trigger] ("http://"@ + authority + rest)
}

/// Whether `uri` is what the `http` crate builds for `target` of the scheme
/// `http` and a text that names the address `addr`.
pub open spec fn is_http_uri(uri: Uri, addr: SocketAddr, target: Seq<char>) -> bool {
    exists|authority: Seq<char>|
        denotes_addr(authority, addr) && #[trigger] built_uri("http"@, authority, target) == Some(
            uri,
        )
}

/// Whether `target` is a path and, unless `tail` is empty, a query with its
/// question mark, all of characters that need no encoding. Left out are the
/// paths so long that the question mark is written in another place.
pub open spec fn is_legal_target(target: Seq<char>, path: Seq<char>, tail: Seq<char>) -> bool {
    &&& target == path + tail
    &&& forall|i: int| 0 <= i < path.len() ==> is_path_char(#[trigger] path[i])
    &&& forall|i: int| 0 <= i < tail.len() ==> is_query_char(#[trigger] tail[i])
    &&& tail.len() > 0 ==> {
        &&& tail[0] == '?'
        &&& path.len() < 0x1_0000 || path.len() % 0x1_0000 == 0xffff
    }
}

/// A legal target is split into its path and its query.
pub(crate) proof fn lemma_legal_target(target: Seq<char>, path: Seq<char>, tail: Seq<char>)
    requires
        is_legal_target(target, path, tail),
    ensures
        is_path_and_query(target),
        shown_target(target) == (if path.len() == 0 {
            "/"@ + target
        } else {
            target
        }),
{
    assert forall|i: int| 0 <= i < target.len() implies #[trigger] target[i] != '#' by {
        if i < path.len() {
            assert(is_path_char(path[i]));
        } else {
            assert(is_query_char(tail[i - path.len()]));
        }
    }
    lemma_before_absent(target, '#');
    lemma_before(target, '?');
    assert(path_part(target).len() == path.len()) by {
        if path_part(target).len() < path.len() {
            assert(target[path_part(target).len() as int] == path[path_part(target).len() as int]);
        } else if path_part(target).len() > path.len() {
            assert(path_part(target)[path.len() as int] == target[path.len() as int]);
            assert(target[path.len() as int] == tail[0]);
        }
    }
    assert(path_part(target) =~= path);
    assert(query_part(target) =~= tail);
    if tail.len() > 0 {
        assert(target[path.len() as int] == '?');
        assert(target.update(path.len() as int, '?') =~= target);
    }
    if target.len() == 0 {
        assert("/"@ + target =~= "/"@);
    }
}

/// A URL names its address, whatever the target.
pub(crate) proof fn lemma_url_names_addr(url: Url, addr: SocketAddr, target: Seq<char>)
    requires
        is_url_of(url, addr, target),
    ensures
        is_http_uri(url.uri, addr, target),
        is_http_text(url.text@, addr, shown_target(target)),
{
    reveal_strlit("http");
    reveal_strlit("://");
    reveal_strlit("http://");
    law_addr_text_denotes(addr);
    assert("http"@ + "://"@ =~= "http://"@);
    assert(built_uri("http"@, addr.text(), target) == Some(url.uri));
    assert(url.text@ == "http://"@ + addr.text() + shown_target(target));
}

/// For a legal target there is a URL, which the `http` crate builds of that
/// target and a text that names the address. It is written as `http://`, that
/// text and the target, with a slash between them where the path is empty.
pub proof fn law_url_of_legal_target(
    addr: SocketAddr,
    target: &str,
    path: Seq<char>,
    tail: Seq<char>,
    url: Option<Url>,
)
    requires
        call_ensures(try_url, (&addr, target), url),
        is_legal_target(target@, path, tail),
    ensures
        url is Some,
        is_http_uri(url->0.uri, addr, target@),
        path.len() > 0 ==> is_http_text(url->0.text@, addr, target@),
        path.len() == 0 ==> is_http_text(url->0.text@, addr, "/"@ + target@),
{
    lemma_legal_target(target@, path, tail);
    lemma_url_names_addr(url->0, addr, target@);
}

/// What comes after no mark stands before the first one.
proof fn lemma_unmarked_is_before(s: Seq<char>, mark: char, i: int)
    requires
        0 <= i < s.len(),
        forall|j: int| 0 <= j <= i ==> #[trigger] s[j] != mark,
    ensures
        i < before(s, mark).len(),
        before(s, mark)[i] == s[i],
{
    lemma_before(s, mark);
    if before(s, mark).len() <= i {
        assert(s[before(s, mark).len() as int] == mark);
    }
}

/// There is no URL for a target with a character in its path that needs to be
/// encoded: one that may not stand in a path, with no `?` or `#` before it.
pub proof fn law_no_url_of_illegal_path(addr: SocketAddr, target: &str, i: int, url: Option<Url>)
    requires
        call_ensures(try_url, (&addr, target), url),
        0 <= i < target@.len(),
        forall|j: int| 0 <= j <= i ==> (#[trigger] target@[j]) != '?' && target@[j] != '#',
        !('!' <= target@[i] <= '~') || target@[i] == '<' || target@[i] == '>' || target@[i] == '`',
    ensures
        url is None,
{
    lemma_unmarked_is_before(target@, '#', i);
    let kept = before(target@, '#');
    lemma_before(target@, '#');
    assert forall|j: int| 0 <= j <= i implies #[trigger] kept[j] != '?' by {
        assert(kept[j] == target@[j]);
    }
    lemma_unmarked_is_before(kept, '?', i);
    assert(!is_path_char(path_part(target@)[i]));
}

/// There is no URL for a target with a character in its query that needs to be
/// encoded: one that may not stand in a query, behind the first question mark and
/// with no `#` before it. Left out are the paths so long that the question mark
/// is missed.
pub proof fn law_no_url_of_illegal_query(
    addr: SocketAddr,
    target: &str,
    mark: int,
    i: int,
    url: Option<Url>,
)
    requires
        call_ensures(try_url, (&addr, target), url),
        0 <= mark < i < target@.len(),
        mark % 0x1_0000 != 0xffff,
        target@[mark] == '?',
        forall|j: int| 0 <= j < mark ==> (#[trigger] target@[j]) != '?',
        forall|j: int| 0 <= j <= i ==> (#[trigger] target@[j]) != '#',
        !('!' <= target@[i] <= '~') || target@[i] == '"' || target@[i] == '<' || target@[i] == '>',
    ensures
        url is None,
{
    lemma_unmarked_is_before(target@, '#', i);
    let kept = before(target@, '#');
    lemma_before(target@, '#');
    lemma_before(kept, '?');
    assert(kept[mark] == '?');
    assert(path_part(target@).len() == mark) by {
        let n = path_part(target@).len() as int;
        if n > mark {
            assert(path_part(target@)[mark] == kept[mark]);
        } else if n < mark {
            assert(kept[n] == target@[n]);
        }
    }
    assert(query_part(target@)[i - mark] == target@[i]);
    assert(!is_query_char(query_part(target@)[i - mark]));
}

/// Whatever the target: if there is a URL, it is the one that the `http` crate
/// builds of just that target and a text that names the address.
pub proof fn law_url_is_built_of_target(addr: SocketAddr, target: &str, url: Option<Url>)
    requires
        call_ensures(try_url, (&addr, target), url),
    ensures
        url matches Some(url) ==> is_http_uri(url.uri, addr, target@),
{
    if url is Some {
        lemma_url_names_addr(url->0, addr, target@);
    }
}

/// Of two targets that differ in a fragment alone, both have a URL or neither
/// has, and the two URLs are written alike.
pub proof fn law_urls_with_and_without_fragment(
    addr: SocketAddr,
    target: &str,
    longer: &str,
    fragment: Seq<char>,
    url: Option<Url>,
    longer_url: Option<Url>,
)
    requires
        call_ensures(try_url, (&addr, target), url),
        call_ensures(try_url, (&addr, longer), longer_url),
        longer@ == target@ + "#"@ + fragment,
        !misses_query(target@),
    ensures
        url is Some <==> longer_url is Some,
        url is Some ==> url->0.text@ == longer_url->0.text@,
{
    law_fragment_is_dropped(addr, target@, fragment);
}

} // verus!
