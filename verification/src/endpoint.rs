//! Host and port of an endpoint URL.

#[allow(unused_imports)]
use crate::number;
use crate::number::parse_port;
#[allow(unused_imports)]
use crate::text;
use crate::text::{
    chars_of, find_first, find_last, stands_at, text_between, trim_bounds, CharClass,
};
use vstd::prelude::*;

verus! {

/// A URL without its `http://` or `https://`.
pub open spec fn without_scheme(url: Seq<char>) -> Seq<char> {
    if "http://"@.is_prefix_of(url) {
        url.skip("http://"@.len() as int)
    } else if "https://"@.is_prefix_of(url) {
        url.skip("https://"@.len() as int)
    } else {
        url
    }
}

/// The part of a URL that names host and port: what stands between the scheme
/// and the first slash, without white space around it.
pub open spec fn authority(url: Seq<char>) -> Seq<char> {
    text::trim(text::before_first(without_scheme(text::trim(url)), '/'))
}

/// Host and port of an authority. The port stands after the last colon; where
/// there is no colon, or no port number after it, the fallback port is taken.
/// Square brackets around the host are dropped, and a host that is then empty
/// is replaced by the fallback host.
pub open spec fn host_and_port(
    authority: Seq<char>,
    fallback_host: Seq<char>,
    fallback_port: u16,
) -> (Seq<char>, u16) {
    let colon = text::last_index_of(authority, ':');
    if authority.len() == 0 {
        (fallback_host, fallback_port)
    } else if colon < 0 {
        (authority, fallback_port)
    } else {
        let host = text::trim_of(authority.take(colon), CharClass::Bracket);
        let port = match number::port_number(authority.skip(colon + 1)) {
            Some(port) => port,
            None => fallback_port,
        };
        (
            if host.len() == 0 {
                fallback_host
            } else {
                host
            },
            port,
        )
    }
}

/// Host and port of a URL.
pub open spec fn endpoint(url: Seq<char>, fallback_host: Seq<char>, fallback_port: u16) -> (
    Seq<char>,
    u16,
) {
    host_and_port(authority(url), fallback_host, fallback_port)
}

/// The bounds of the authority in the characters of a URL.
fn authority_bounds(chars: &[char]) -> (bounds: (usize, usize))
    ensures
        bounds.0 <= bounds.1 <= chars@.len(),
        chars@.subrange(bounds.0 as int, bounds.1 as int) == authority(chars@),
{
    proof {
        reveal_strlit("http://");
        reveal_strlit("https://");
    }
    let total: usize = chars.len();
    let outer = trim_bounds(chars, 0, total, CharClass::White);
    let ghost trimmed = text::trim(chars@);
    proof {
        assert(chars@.subrange(0, chars@.len() as int) =~= chars@);
        assert(trimmed == chars@.subrange(outer.0 as int, outer.1 as int));
    }
    let inner = text_between(chars, outer.0, outer.1);
    let plain = chars_of(inner.as_str());
    let mut from: usize = outer.0;
    proof {
        assert(plain@.skip(0) =~= trimmed);
    }
    if stands_at(plain.as_slice(), 0, "http://") {
        from = outer.0 + 7;
    } else if stands_at(plain.as_slice(), 0, "https://") {
        from = outer.0 + 8;
    }
    let ghost bare = without_scheme(trimmed);
    assert(bare =~= chars@.subrange(from as int, outer.1 as int));
    let slash = find_first(chars, from, outer.1, '/');
    proof {
        assert(text::before_first(bare, '/') =~= chars@.subrange(from as int, slash as int));
    }
    trim_bounds(chars, from, slash, CharClass::White)
}

/// Host and port of a URL, with fallbacks for what it does not say.
pub fn parse_endpoint(url: &str, fallback_host: &str, fallback_port: u16) -> (res: (String, u16))
    ensures
        (res.0@, res.1) == endpoint(url@, fallback_host@, fallback_port),
{
    let chars = chars_of(url);
    let (from, to) = authority_bounds(chars.as_slice());
    let ghost auth = authority(url@);
    if from == to {
        return (fallback_host.to_owned(), fallback_port);
    }
    match find_last(chars.as_slice(), from, to, ':') {
        None => (text_between(chars.as_slice(), from, to), fallback_port),
        Some(colon) => {
            let tail = chars_of(text_between(chars.as_slice(), colon + 1, to).as_str());
            assert(tail@ =~= auth.skip(colon - from + 1));
            let port = match parse_port(tail.as_slice()) {
                Some(port) => port,
                None => fallback_port,
            };
            let (start, end) = trim_bounds(chars.as_slice(), from, colon, CharClass::Bracket);
            assert(chars@.subrange(from as int, colon as int) =~= auth.take(colon - from));
            if start == end {
                (fallback_host.to_owned(), port)
            } else {
                (text_between(chars.as_slice(), start, end), port)
            }
        },
    }
}

// ---------------------------------------------------------------------------
// Laws
// ---------------------------------------------------------------------------

/// The schemes that a URL may start with; a URL may also do without one.
pub open spec fn is_scheme(scheme: Seq<char>) -> bool {
    scheme == ""@ || scheme == "http://"@ || scheme == "https://"@
}

/// A path: nothing, or a text that starts with a slash.
pub open spec fn is_path(path: Seq<char>) -> bool {
    path.len() == 0 || path.first() == '/'
}

/// Whether a text starts with a scheme.
pub open spec fn has_scheme(s: Seq<char>) -> bool {
    "http://"@.is_prefix_of(s) || "https://"@.is_prefix_of(s)
}

/// A URL made of a scheme, an authority and a path has that authority, where
/// the authority holds no slash and has no white space at its ends. Without a
/// scheme the rest must not look as if it had one.
pub proof fn law_authority_reads_back(scheme: Seq<char>, auth: Seq<char>, path: Seq<char>)
    requires
        is_scheme(scheme),
        is_path(path),
        auth.len() > 0,
        forall|i: int| 0 <= i < auth.len() ==> #[trigger] auth[i] != '/',
        !CharClass::White.has(auth.first()),
        !CharClass::White.has(auth.last()),
        scheme.len() == 0 ==> !has_scheme(auth + path),
    ensures
        authority(scheme + auth + path) == auth,
{
    reveal_strlit("");
    reveal_strlit("http://");
    reveal_strlit("https://");
    let url = scheme + auth + path;
    let head = scheme.len() + auth.len();
    let bounds = text::lemma_trim_of_shape(url, CharClass::White);
    let trimmed = text::trim(url);
    assert(url[0] == if scheme.len() > 0 {
        scheme[0]
    } else {
        auth[0]
    });
    assert(bounds.0 == 0);
    assert(url[head - 1] == auth.last());
    assert(bounds.1 >= head);
    let kept = path.take(bounds.1 - head);
    assert(trimmed =~= scheme + auth + kept);
    let rest = auth + kept;
    assert(without_scheme(trimmed) == rest) by {
        if scheme == "http://"@ {
            assert(trimmed.subrange(0, 7) =~= "http://"@);
            assert(trimmed.skip(7) =~= rest);
        } else if scheme == "https://"@ {
            assert(trimmed[4] == 's');
            assert("http://"@[4] == ':');
            if "http://"@.is_prefix_of(trimmed) {
                assert(trimmed.subrange(0, 7)[4] == trimmed[4]);
            }
            assert(trimmed.subrange(0, 8) =~= "https://"@);
            assert(trimmed.skip(8) =~= rest);
        } else {
            assert(trimmed =~= rest);
            if "http://"@.is_prefix_of(trimmed) {
                assert((auth + path).subrange(0, 7) =~= trimmed.subrange(0, 7));
            }
            if "https://"@.is_prefix_of(trimmed) {
                assert((auth + path).subrange(0, 8) =~= trimmed.subrange(0, 8));
            }
        }
    }
    let n = auth.len() as int;
    assert forall|i: int| 0 <= i < n implies #[trigger] rest[i] != '/' by {
        assert(rest[i] == auth[i]);
    }
    if n < rest.len() {
        assert(rest[n] == path[0]);
    }
    text::lemma_first_index_is(rest, '/', n);
    assert(rest.take(n) =~= auth);
    text::lemma_trim_of_bare(auth, CharClass::White);
}

/// An authority that does not end in a colon does not look like a scheme.
proof fn lemma_no_scheme(auth: Seq<char>, path: Seq<char>)
    requires
        is_path(path),
        auth.len() > 0,
        forall|i: int| 0 <= i < auth.len() ==> #[trigger] auth[i] != '/',
        auth.last() != ':',
    ensures
        !has_scheme(auth + path),
{
    reveal_strlit("http://");
    reveal_strlit("https://");
    let s = auth + path;
    let n = auth.len() as int;
    if n < s.len() {
        assert(s[n] == path[0]);
    }
    assert(s[n - 1] == auth.last());
    if "http://"@.is_prefix_of(s) {
        let p = s.subrange(0, 7);
        assert(p[4] == s[4] && p[5] == s[5]);
        assert forall|i: int| 0 <= i < 5 implies #[trigger] s[i] != '/' by {
            assert(p[i] == s[i]);
        }
        if n > 5 {
            assert(auth[5] == s[5]);
        }
    }
    if "https://"@.is_prefix_of(s) {
        let p = s.subrange(0, 8);
        assert(p[5] == s[5] && p[6] == s[6]);
        assert forall|i: int| 0 <= i < 6 implies #[trigger] s[i] != '/' by {
            assert(p[i] == s[i]);
        }
        if n > 6 {
            assert(auth[6] == s[6]);
        }
    }
}

/// Host and port are read back from any URL that spells them out as
/// `host:port`, with or without a scheme and a path, whatever the fallbacks.
/// The host may hold colons; it may hold no slash, start with no white space,
/// and neither start nor end with a square bracket.
pub proof fn law_host_and_port_read_back(
    scheme: Seq<char>,
    host: Seq<char>,
    port: u16,
    path: Seq<char>,
    fallback_host: Seq<char>,
    fallback_port: u16,
)
    requires
        is_scheme(scheme),
        is_path(path),
        host.len() > 0,
        forall|i: int| 0 <= i < host.len() ==> #[trigger] host[i] != '/',
        !CharClass::White.has(host.first()),
        !CharClass::Bracket.has(host.first()),
        !CharClass::Bracket.has(host.last()),
    ensures
        endpoint(
            scheme + (host + seq![':'] + number::decimal(port as nat)) + path,
            fallback_host,
            fallback_port,
        ) == (host, port),
{
    let auth = host + seq![':'] + number::decimal(port as nat);
    lemma_port_authority(host, port);
    lemma_no_scheme(auth, path);
    law_authority_reads_back(scheme, auth, path);
    assert(auth.take(host.len() as int) =~= host);
    text::lemma_trim_of_bare(host, CharClass::Bracket);
}

/// A host in square brackets, as IPv6 addresses are written, is read back
/// without them.
pub proof fn law_bracketed_host_reads_back(
    scheme: Seq<char>,
    host: Seq<char>,
    port: u16,
    path: Seq<char>,
    fallback_host: Seq<char>,
    fallback_port: u16,
)
    requires
        is_scheme(scheme),
        is_path(path),
        host.len() > 0,
        forall|i: int| 0 <= i < host.len() ==> #[trigger] host[i] != '/',
        !CharClass::Bracket.has(host.first()),
        !CharClass::Bracket.has(host.last()),
    ensures
        endpoint(
            scheme + (seq!['['] + host + seq![']'] + seq![':'] + number::decimal(port as nat))
                + path,
            fallback_host,
            fallback_port,
        ) == (host, port),
{
    let wrapped = seq!['['] + host + seq![']'];
    let auth = wrapped + seq![':'] + number::decimal(port as nat);
    assert forall|i: int| 0 <= i < wrapped.len() implies #[trigger] wrapped[i] != '/' by {
        if 0 < i < wrapped.len() - 1 {
            assert(wrapped[i] == host[i - 1]);
        }
    }
    lemma_port_authority(wrapped, port);
    lemma_no_scheme(auth, path);
    law_authority_reads_back(scheme, auth, path);
    assert(auth.take(wrapped.len() as int) =~= wrapped);
    let bounds = text::lemma_trim_of_shape(wrapped, CharClass::Bracket);
    assert(wrapped[1] == host.first());
    assert(wrapped[wrapped.len() - 2] == host.last());
    assert(CharClass::Bracket.has(wrapped[0]));
    assert(CharClass::Bracket.has(wrapped[wrapped.len() - 1]));
    assert(bounds.0 <= 1);
    assert(bounds.1 >= wrapped.len() - 1);
    assert(wrapped.subrange(bounds.0, bounds.1) =~= host);
}

/// A host that is empty, or made of square brackets alone, is replaced by the
/// fallback host; the port is read all the same.
pub proof fn law_empty_host_falls_back(
    scheme: Seq<char>,
    host: Seq<char>,
    port: u16,
    path: Seq<char>,
    fallback_host: Seq<char>,
    fallback_port: u16,
)
    requires
        is_scheme(scheme),
        is_path(path),
        forall|i: int| 0 <= i < host.len() ==> CharClass::Bracket.has(#[trigger] host[i]),
    ensures
        endpoint(
            scheme + (host + seq![':'] + number::decimal(port as nat)) + path,
            fallback_host,
            fallback_port,
        ) == (fallback_host, port),
{
    let auth = host + seq![':'] + number::decimal(port as nat);
    assert forall|i: int| 0 <= i < host.len() implies #[trigger] host[i] != '/' by {
        assert(CharClass::Bracket.has(host[i]));
    }
    if host.len() > 0 {
        assert(CharClass::Bracket.has(host[0]));
    }
    lemma_port_authority(host, port);
    lemma_no_scheme(auth, path);
    law_authority_reads_back(scheme, auth, path);
    assert(auth.take(host.len() as int) =~= host);
    let bounds = text::lemma_trim_of_shape(host, CharClass::Bracket);
    assert(bounds.0 == bounds.1);
}

/// The authority `host:port` has no slash, a digit at its end, and its port
/// after its last colon.
proof fn lemma_port_authority(host: Seq<char>, port: u16)
    requires
        forall|i: int| 0 <= i < host.len() ==> #[trigger] host[i] != '/',
    ensures
        ({
            let auth = host + seq![':'] + number::decimal(port as nat);
            &&& forall|i: int| 0 <= i < auth.len() ==> #[trigger] auth[i] != '/'
            &&& auth.first() == if host.len() > 0 {
                host.first()
            } else {
                ':'
            }
            &&& !CharClass::White.has(auth.last())
            &&& auth.last() != ':'
            &&& text::last_index_of(auth, ':') == host.len()
            &&& number::port_number(auth.skip(host.len() as int + 1)) == Some(port)
        }),
{
    let digits = number::decimal(port as nat);
    let auth = host + seq![':'] + digits;
    let n = host.len() as int;
    number::lemma_decimal_reads_back(port as nat);
    number::law_port_reads_back(port);
    assert forall|i: int| 0 <= i < auth.len() implies #[trigger] auth[i] != '/' by {
        if i < n {
            assert(auth[i] == host[i]);
        } else if i > n {
            assert(auth[i] == digits[i - n - 1]);
        }
    }
    assert forall|i: int| n < i < auth.len() implies #[trigger] auth[i] != ':' by {
        assert(auth[i] == digits[i - n - 1]);
    }
    assert(auth[n] == ':');
    text::lemma_last_index_is(auth, ':', n);
    assert(auth.skip(n + 1) =~= digits);
    assert(auth.last() == digits[digits.len() - 1]);
}

/// Where the text after the last colon is no port number, the host is kept and
/// the fallback port is taken.
pub proof fn law_bad_port_falls_back(
    scheme: Seq<char>,
    host: Seq<char>,
    tail: Seq<char>,
    path: Seq<char>,
    fallback_host: Seq<char>,
    fallback_port: u16,
)
    requires
        is_scheme(scheme),
        is_path(path),
        host.len() > 0,
        forall|i: int| 0 <= i < host.len() ==> #[trigger] host[i] != '/',
        !CharClass::White.has(host.first()),
        !CharClass::Bracket.has(host.first()),
        !CharClass::Bracket.has(host.last()),
        forall|i: int| 0 <= i < tail.len() ==> #[trigger] tail[i] != '/' && tail[i] != ':',
        tail.len() > 0 ==> !CharClass::White.has(tail.last()),
        number::port_number(tail) is None,
        scheme.len() == 0 ==> !has_scheme(host + seq![':'] + tail + path),
    ensures
        endpoint(scheme + (host + seq![':'] + tail) + path, fallback_host, fallback_port) == (
            host,
            fallback_port,
        ),
{
    let auth = host + seq![':'] + tail;
    let n = host.len() as int;
    assert forall|i: int| 0 <= i < auth.len() implies #[trigger] auth[i] != '/' by {
        if i < n {
            assert(auth[i] == host[i]);
        } else if i > n {
            assert(auth[i] == tail[i - n - 1]);
        }
    }
    assert forall|i: int| n < i < auth.len() implies #[trigger] auth[i] != ':' by {
        assert(auth[i] == tail[i - n - 1]);
    }
    assert(auth[n] == ':');
    if tail.len() > 0 {
        assert(auth.last() == tail[tail.len() - 1]);
    }
    assert(auth.first() == host.first());
    text::lemma_last_index_is(auth, ':', n);
    assert(auth.skip(n + 1) =~= tail);
    law_authority_reads_back(scheme, auth, path);
    assert(auth.take(n) =~= host);
    text::lemma_trim_of_bare(host, CharClass::Bracket);
}

/// A URL without a port gives its host, brackets and all, and the fallback port.
pub proof fn law_missing_port_falls_back(
    scheme: Seq<char>,
    host: Seq<char>,
    path: Seq<char>,
    fallback_host: Seq<char>,
    fallback_port: u16,
)
    requires
        is_scheme(scheme),
        is_path(path),
        host.len() > 0,
        forall|i: int| 0 <= i < host.len() ==> #[trigger] host[i] != '/' && host[i] != ':',
        !CharClass::White.has(host.first()),
        !CharClass::White.has(host.last()),
    ensures
        endpoint(scheme + host + path, fallback_host, fallback_port) == (host, fallback_port),
{
    lemma_no_scheme(host, path);
    law_authority_reads_back(scheme, host, path);
    text::lemma_last_index_is(host, ':', -1);
}

/// A URL of white space alone gives both fallbacks.
pub proof fn law_blank_url_falls_back(
    url: Seq<char>,
    fallback_host: Seq<char>,
    fallback_port: u16,
)
    requires
        forall|i: int| 0 <= i < url.len() ==> CharClass::White.has(#[trigger] url[i]),
    ensures
        endpoint(url, fallback_host, fallback_port) == (fallback_host, fallback_port),
{
    reveal_strlit("http://");
    reveal_strlit("https://");
    let bounds = text::lemma_trim_of_shape(url, CharClass::White);
    assert(bounds.0 == bounds.1);
    let none = text::trim(url);
    assert(none.len() == 0);
    assert(without_scheme(none) == none);
    text::lemma_first_index_bounds(none, '/');
    assert(text::before_first(none, '/').len() == 0);
}

/// White space around a URL does not matter.
pub proof fn law_surrounding_white_space_is_ignored(
    url: Seq<char>,
    fallback_host: Seq<char>,
    fallback_port: u16,
)
    ensures
        endpoint(text::trim(url), fallback_host, fallback_port) == endpoint(
            url,
            fallback_host,
            fallback_port,
        ),
{
    let bounds = text::lemma_trim_of_shape(url, CharClass::White);
    let t = text::trim(url);
    if t.len() > 0 {
        assert(t.first() == url[bounds.0]);
        assert(t.last() == url[bounds.1 - 1]);
    }
    text::lemma_trim_of_bare(t, CharClass::White);
}

/// The host is never empty, unless the fallback host is.
pub proof fn law_host_is_never_empty(
    url: Seq<char>,
    fallback_host: Seq<char>,
    fallback_port: u16,
)
    requires
        fallback_host.len() > 0,
    ensures
        endpoint(url, fallback_host, fallback_port).0.len() > 0,
{
}

/// The host never holds a slash, unless the fallback host does.
pub proof fn law_host_holds_no_slash(
    url: Seq<char>,
    fallback_host: Seq<char>,
    fallback_port: u16,
)
    requires
        !fallback_host.contains('/'),
    ensures
        !endpoint(url, fallback_host, fallback_port).0.contains('/'),
{
    let bare = without_scheme(text::trim(url));
    let auth = authority(url);
    text::lemma_first_index_bounds(bare, '/');
    let piece = text::before_first(bare, '/');
    let bounds = text::lemma_trim_of_shape(piece, CharClass::White);
    assert forall|i: int| 0 <= i < auth.len() implies #[trigger] auth[i] != '/' by {
        assert(auth[i] == piece[bounds.0 + i]);
        assert(piece[bounds.0 + i] == bare[bounds.0 + i]);
    }
    let colon = text::last_index_of(auth, ':');
    text::lemma_last_index_bounds(auth, ':');
    if colon >= 0 {
        let front = auth.take(colon);
        let inner = text::lemma_trim_of_shape(front, CharClass::Bracket);
        let host = text::trim_of(front, CharClass::Bracket);
        assert forall|i: int| 0 <= i < host.len() implies #[trigger] host[i] != '/' by {
            assert(host[i] == front[inner.0 + i]);
            assert(front[inner.0 + i] == auth[inner.0 + i]);
        }
    }
}

pub open spec fn is_blank(s: Seq<char>) -> bool {
    forall|i: int| 0 <= i < s.len() ==> text::is_white_space(#[trigger] s[i])
}

/// What stands before the first slash of a text, trimmed, where the text has
/// lost some white space at its end.
proof fn lemma_trimmed_head(
    s: Seq<char>,
    left: Seq<char>,
    auth: Seq<char>,
    right: Seq<char>,
    path: Seq<char>,
    trail: Seq<char>,
    k: int,
)
    requires
        is_blank(left),
        is_blank(right),
        is_blank(trail),
        forall|i: int| 0 <= i < auth.len() ==> #[trigger] auth[i] != '/',
        auth.len() > 0 ==> !text::is_white_space(auth.first()) && !text::is_white_space(
            auth.last(),
        ),
        is_path(path),
        0 <= k <= (left + auth + right + path + trail).len(),
        s == (left + auth + right + path + trail).take(k),
        is_blank((left + auth + right + path + trail).skip(k)),
    ensures
        text::trim(text::before_first(s, '/')) == auth,
{
    let all = left + auth + right + path + trail;
    let a = left.len() as int;
    let b = a + auth.len();
    let q = b + right.len();
    if path.len() > 0 {
        assert(all[q] == '/');
        if k <= q {
            assert(all.skip(k)[q - k] == all[q]);
        }
    }
    let n = if path.len() > 0 {
        q
    } else {
        k
    };
    assert forall|i: int| 0 <= i < n implies #[trigger] s[i] != '/' by {
        assert(s[i] == all[i]);
        if i < a {
            assert(all[i] == left[i]);
        } else if i < b {
            assert(all[i] == auth[i - a]);
        } else if i < q {
            assert(all[i] == right[i - b]);
        } else {
            assert(all[i] == trail[i - q]);
        }
    }
    if n < s.len() {
        assert(s[n] == all[n]);
    }
    text::lemma_first_index_is(s, '/', n);
    let head = s.take(n);
    if auth.len() > 0 {
        assert(all[b - 1] == auth.last());
        if k < b {
            assert(all.skip(k)[b - 1 - k] == all[b - 1]);
        }
        let tail = head.skip(b);
        assert forall|i: int| 0 <= i < tail.len() implies text::is_white_space(
            #[trigger] tail[i],
        ) by {
            assert(tail[i] == all[b + i]);
            if b + i < q {
                assert(all[b + i] == right[i]);
            } else {
                assert(all[b + i] == trail[b + i - q]);
            }
        }
        assert(head =~= left + auth + tail);
        text::law_trimming_keeps_the_middle(left, auth, tail, CharClass::White);
    } else {
        assert forall|i: int| 0 <= i < head.len() implies text::is_white_space(
            #[trigger] head[i],
        ) by {
            assert(head[i] == all[i]);
            if i < a {
                assert(all[i] == left[i]);
            } else if i < q {
                assert(all[i] == right[i - b]);
            } else {
                assert(all[i] == trail[i - q]);
            }
        }
        assert(head =~= head + auth + seq![]);
        text::law_trimming_keeps_the_middle(head, auth, seq![], CharClass::White);
    }
}

#[verifier::spinoff_prover]
proof fn lemma_authority_after_scheme(
    lead: Seq<char>,
    scheme: Seq<char>,
    left: Seq<char>,
    auth: Seq<char>,
    right: Seq<char>,
    path: Seq<char>,
    trail: Seq<char>,
)
    requires
        is_blank(lead),
        is_blank(left),
        is_blank(right),
        is_blank(trail),
        is_path(path),
        forall|i: int| 0 <= i < auth.len() ==> #[trigger] auth[i] != '/',
        auth.len() > 0 ==> !text::is_white_space(auth.first()) && !text::is_white_space(
            auth.last(),
        ),
        scheme == "http://"@ || scheme == "https://"@,
    ensures
        authority(lead + scheme + (left + auth + right + path + trail)) == auth,
{
    reveal_strlit("http://");
    reveal_strlit("https://");
    let rest = left + auth + right + path + trail;
    let url = lead + scheme + rest;
    let bounds = text::lemma_trim_of_shape(url, CharClass::White);
    let trimmed = text::trim(url);
    let l = lead.len() as int;
    let m = scheme.len() as int;
    assert(url[l] == scheme[0]);
    assert(scheme[0] == 'h');
    assert(bounds.0 >= l) by {
        if bounds.0 < l {
            assert(url[bounds.0] == lead[bounds.0]);
            if bounds.0 == bounds.1 {
                assert(CharClass::White.has(url[l]));
            }
        }
    }
    assert(bounds.0 == l) by {
        if bounds.0 > l {
            assert(CharClass::White.has(url[l]));
        }
    }
    assert(url[l + m - 1] == scheme[m - 1]);
    assert(scheme[m - 1] == '/');
    assert(bounds.1 >= l + m) by {
        if bounds.1 < l + m {
            assert(CharClass::White.has(url[l + m - 1]));
        }
    }
    let k = bounds.1 - l - m;
    let s = rest.take(k);
    assert(trimmed =~= scheme + s);
    assert(without_scheme(trimmed) == s) by {
        if scheme == "http://"@ {
            assert(trimmed.subrange(0, 7) =~= "http://"@);
            assert(trimmed.skip(7) =~= s);
        } else {
            assert(trimmed[4] == 's');
            if "http://"@.is_prefix_of(trimmed) {
                assert(trimmed.subrange(0, 7)[4] == trimmed[4]);
            }
            assert(trimmed.subrange(0, 8) =~= "https://"@);
            assert(trimmed.skip(8) =~= s);
        }
    }
    assert forall|i: int| 0 <= i < rest.skip(k).len() implies text::is_white_space(
        #[trigger] rest.skip(k)[i],
    ) by {
        assert(rest.skip(k)[i] == url[l + m + k + i]);
    }
    lemma_trimmed_head(s, left, auth, right, path, trail, k);
}

#[verifier::spinoff_prover]
proof fn lemma_authority_without_scheme(
    lead: Seq<char>,
    left: Seq<char>,
    auth: Seq<char>,
    right: Seq<char>,
    path: Seq<char>,
    trail: Seq<char>,
)
    requires
        is_blank(lead),
        is_blank(left),
        is_blank(right),
        is_blank(trail),
        is_path(path),
        forall|i: int| 0 <= i < auth.len() ==> #[trigger] auth[i] != '/',
        auth.len() > 0 ==> !text::is_white_space(auth.first()) && !text::is_white_space(
            auth.last(),
        ),
        auth.len() > 0,
        !"http://"@.is_prefix_of(auth + right + path),
        !"https://"@.is_prefix_of(auth + right + path),
    ensures
        authority(lead + left + (Seq::<char>::empty() + auth + right + path + trail)) == auth,
{
    let none = Seq::<char>::empty();
    let bare = none + auth + right + path + trail;
    let url = lead + left + bare;
    let bounds = text::lemma_trim_of_shape(url, CharClass::White);
    let trimmed = text::trim(url);
    let l = lead.len() as int;
    let from = l + left.len();
    assert(url[from] == auth[0]);
    assert forall|i: int| 0 <= i < from implies CharClass::White.has(#[trigger] url[i]) by {
        if i < l {
            assert(url[i] == lead[i]);
        } else {
            assert(url[i] == left[i - l]);
        }
    }
    assert(bounds.0 == from) by {
        if bounds.0 > from {
            assert(CharClass::White.has(url[from]));
        } else if bounds.0 < from {
            assert(CharClass::White.has(url[bounds.0]));
            if bounds.0 == bounds.1 {
                assert(CharClass::White.has(url[from]));
            }
        }
    }
    let k = bounds.1 - from;
    let s = bare.take(k);
    assert(trimmed =~= s);
    let parts = auth + right + path;
    assert(bare =~= parts + trail);
    assert forall|i: int| 0 <= i < bare.skip(k).len() implies text::is_white_space(
        #[trigger] bare.skip(k)[i],
    ) by {
        assert(bare.skip(k)[i] == url[from + k + i]);
    }
    lemma_no_scheme_appears(s, parts, trail, "http://"@);
    lemma_no_scheme_appears(s, parts, trail, "https://"@);
    lemma_trimmed_head(s, none, auth, right, path, trail, k);
}

#[verifier::spinoff_prover]
proof fn lemma_empty_authority(
    lead: Seq<char>,
    left: Seq<char>,
    auth: Seq<char>,
    right: Seq<char>,
    path: Seq<char>,
    trail: Seq<char>,
)
    requires
        is_blank(lead),
        is_blank(left),
        is_blank(right),
        is_blank(trail),
        is_path(path),
        forall|i: int| 0 <= i < auth.len() ==> #[trigger] auth[i] != '/',
        auth.len() > 0 ==> !text::is_white_space(auth.first()) && !text::is_white_space(
            auth.last(),
        ),
        auth.len() == 0,
    ensures
        authority(lead + left + right + path + trail) == auth,
{
    reveal_strlit("http://");
    reveal_strlit("https://");
    let url = lead + left + right + path + trail;
    let bounds = text::lemma_trim_of_shape(url, CharClass::White);
    let trimmed = text::trim(url);
    let l = lead.len() as int;
    let from = l + left.len() + right.len();
    assert forall|i: int| 0 <= i < from implies CharClass::White.has(#[trigger] url[i]) by {
        if i < l {
            assert(url[i] == lead[i]);
        } else if i < l + left.len() {
            assert(url[i] == left[i - l]);
        } else {
            assert(url[i] == right[i - l - left.len()]);
        }
    }
    if path.len() > 0 {
        assert(url[from] == '/');
        assert(bounds.0 == from) by {
            if bounds.0 > from {
                assert(CharClass::White.has(url[from]));
            } else if bounds.0 < from {
                assert(CharClass::White.has(url[bounds.0]));
                if bounds.0 == bounds.1 {
                    assert(CharClass::White.has(url[from]));
                }
            }
        }
        assert(bounds.1 > from) by {
            if bounds.1 <= from {
                assert(CharClass::White.has(url[from]));
            }
        }
        assert(trimmed[0] == '/');
        assert(without_scheme(trimmed) == trimmed) by {
            if "http://"@.is_prefix_of(trimmed) {
                assert(trimmed.subrange(0, 7)[0] == trimmed[0]);
            }
            if "https://"@.is_prefix_of(trimmed) {
                assert(trimmed.subrange(0, 8)[0] == trimmed[0]);
            }
        }
        text::lemma_first_index_is(trimmed, '/', 0);
        assert(text::before_first(trimmed, '/') =~= auth);
        text::lemma_trim_of_bare(auth, CharClass::White);
    } else {
        assert forall|i: int| 0 <= i < url.len() implies text::is_white_space(
            #[trigger] url[i],
        ) by {
            if i >= from {
                assert(url[i] == trail[i - from]);
            }
        }
        text::law_blank_text_is_trimmed_away(url, CharClass::White);
        assert(trimmed =~= auth);
        assert(without_scheme(trimmed) == trimmed);
        text::lemma_first_index_bounds(trimmed, '/');
        assert(text::before_first(trimmed, '/') =~= auth);
        text::lemma_trim_of_bare(auth, CharClass::White);
    }
}

/// Of any URL the authority is what stands between the scheme and the first
/// slash, without the white space around it: white space may surround the whole
/// URL and the authority, and the authority may be empty.
pub proof fn law_authority_of_any_url(
    lead: Seq<char>,
    scheme: Seq<char>,
    left: Seq<char>,
    auth: Seq<char>,
    right: Seq<char>,
    path: Seq<char>,
    trail: Seq<char>,
)
    requires
        is_blank(lead),
        scheme == ""@ || scheme == "http://"@ || scheme == "https://"@,
        is_blank(left),
        forall|i: int| 0 <= i < auth.len() ==> #[trigger] auth[i] != '/',
        auth.len() > 0 ==> !text::is_white_space(auth.first()) && !text::is_white_space(
            auth.last(),
        ),
        is_blank(right),
        path.len() == 0 || path.first() == '/',
        is_blank(trail),
        scheme == ""@ ==> !"http://"@.is_prefix_of(auth + right + path),
        scheme == ""@ ==> !"https://"@.is_prefix_of(auth + right + path),
    ensures
        authority(lead + scheme + left + auth + right + path + trail) == auth,
{
    reveal_strlit("");
    let url = lead + scheme + left + auth + right + path + trail;
    if scheme.len() > 0 {
        assert(url =~= lead + scheme + (left + auth + right + path + trail));
        lemma_authority_after_scheme(lead, scheme, left, auth, right, path, trail);
    } else if auth.len() > 0 {
        assert(scheme =~= ""@);
        assert(url =~= lead + left + (Seq::<char>::empty() + auth + right + path + trail));
        lemma_authority_without_scheme(lead, left, auth, right, path, trail);
    } else {
        assert(url =~= lead + left + right + path + trail);
        lemma_empty_authority(lead, left, auth, right, path, trail);
    }
}

/// A text that lost white space at its end starts with no scheme that the
/// whole did not start with.
proof fn lemma_no_scheme_appears(
    s: Seq<char>,
    parts: Seq<char>,
    trail: Seq<char>,
    scheme: Seq<char>,
)
    requires
        scheme == "http://"@ || scheme == "https://"@,
        is_blank(trail),
        s.is_prefix_of(parts + trail),
        !scheme.is_prefix_of(parts),
    ensures
        !scheme.is_prefix_of(s),
{
    reveal_strlit("http://");
    reveal_strlit("https://");
    let n = scheme.len() as int;
    if scheme.is_prefix_of(s) {
        let all = parts + trail;
        assert forall|i: int| 0 <= i < n implies #[trigger] scheme[i] == all[i] by {
            assert(s.subrange(0, n)[i] == s[i]);
            assert(all.subrange(0, s.len() as int)[i] == all[i]);
        }
        if parts.len() >= n {
            assert(parts.subrange(0, n) =~= scheme) by {
                assert forall|i: int| 0 <= i < n implies #[trigger] parts.subrange(0, n)[i]
                    == scheme[i] by {
                    assert(scheme[i] == all[i]);
                }
            }
        } else {
            let i = parts.len() as int;
            assert(scheme[i] == all[i]);
            assert(all[i] == trail[0]);
            assert(text::is_white_space(trail[0]));
        }
    }
}

/// Of any URL whose authority is empty or has no colon: the first gives both
/// fallbacks, the second its authority as it is and the fallback port.
pub proof fn law_endpoint_without_colon(
    lead: Seq<char>,
    scheme: Seq<char>,
    left: Seq<char>,
    auth: Seq<char>,
    right: Seq<char>,
    path: Seq<char>,
    trail: Seq<char>,
    fallback_host: Seq<char>,
    fallback_port: u16,
)
    requires
        is_blank(lead),
        scheme == ""@ || scheme == "http://"@ || scheme == "https://"@,
        is_blank(left),
        forall|i: int| 0 <= i < auth.len() ==> #[trigger] auth[i] != '/' && auth[i] != ':',
        auth.len() > 0 ==> !text::is_white_space(auth.first()) && !text::is_white_space(
            auth.last(),
        ),
        is_blank(right),
        path.len() == 0 || path.first() == '/',
        is_blank(trail),
    ensures
        endpoint(
            lead + scheme + left + auth + right + path + trail,
            fallback_host,
            fallback_port,
        ) == (
            if auth.len() == 0 {
                fallback_host
            } else {
                auth
            },
            fallback_port,
        ),
{
    reveal_strlit("http://");
    reveal_strlit("https://");
    let parts = auth + right + path;
    if "http://"@.is_prefix_of(parts) {
        lemma_colon_before_slash(auth, right, path, "http://"@, 4);
    }
    if "https://"@.is_prefix_of(parts) {
        lemma_colon_before_slash(auth, right, path, "https://"@, 5);
    }
    law_authority_of_any_url(lead, scheme, left, auth, right, path, trail);
    text::lemma_last_index_is(auth, ':', -1);
}

/// Text without a colon before its first slash starts with no scheme.
proof fn lemma_colon_before_slash(
    auth: Seq<char>,
    right: Seq<char>,
    path: Seq<char>,
    scheme: Seq<char>,
    n: int,
)
    requires
        forall|i: int| 0 <= i < auth.len() ==> #[trigger] auth[i] != '/' && auth[i] != ':',
        is_blank(right),
        is_path(path),
        0 <= n < scheme.len(),
        scheme[n] == ':',
        forall|i: int| 0 <= i < n ==> #[trigger] scheme[i] != '/',
    ensures
        !scheme.is_prefix_of(auth + right + path),
{
    let parts = auth + right + path;
    let q = auth.len() + right.len();
    if scheme.is_prefix_of(parts) {
        let part = parts.subrange(0, scheme.len() as int);
        assert(part[n] == parts[n]);
        if n < auth.len() {
            assert(parts[n] == auth[n]);
        } else if n < q {
            assert(parts[n] == right[n - auth.len()]);
            assert(text::is_white_space(right[n - auth.len()]));
        } else {
            assert(parts[q as int] == path[0]);
            assert(part[q as int] == parts[q as int]);
            assert(scheme[q as int] == '/');
            if q < n {
            } else {
                assert(q == n);
            }
        }
    }
}

/// Of any URL whose authority has a colon: the last colon parts host and port.
/// Square brackets, however many, are taken off both ends of the host and
/// nothing else is; what is then empty gives the fallback host. What stands
/// behind the colon is the port where it is a port number, and gives the
/// fallback port otherwise.
pub proof fn law_endpoint_with_colon(
    lead: Seq<char>,
    scheme: Seq<char>,
    left: Seq<char>,
    opening: Seq<char>,
    host: Seq<char>,
    closing: Seq<char>,
    tail: Seq<char>,
    right: Seq<char>,
    path: Seq<char>,
    trail: Seq<char>,
    fallback_host: Seq<char>,
    fallback_port: u16,
)
    requires
        ({
            let auth = opening + host + closing + seq![':'] + tail;
            &&& is_blank(lead)
            &&& scheme == ""@ || scheme == "http://"@ || scheme == "https://"@
            &&& is_blank(left)
            &&& forall|i: int| 0 <= i < auth.len() ==> #[trigger] auth[i] != '/'
            &&& !text::is_white_space(auth.first())
            &&& !text::is_white_space(auth.last())
            &&& forall|i: int|
                0 <= i < opening.len() ==> #[trigger] opening[i] == '[' || opening[i] == ']'
            &&& host.len() > 0 ==> host.first() != '[' && host.first() != ']' && host.last() != '['
                && host.last() != ']'
            &&& forall|i: int|
                0 <= i < closing.len() ==> #[trigger] closing[i] == '[' || closing[i] == ']'
            &&& forall|i: int| 0 <= i < tail.len() ==> #[trigger] tail[i] != ':'
            &&& is_blank(right)
            &&& path.len() == 0 || path.first() == '/'
            &&& is_blank(trail)
            &&& scheme == ""@ ==> !"http://"@.is_prefix_of(auth + right + path)
                && !"https://"@.is_prefix_of(auth + right + path)
        }),
    ensures
        endpoint(
            lead + scheme + left + (opening + host + closing + seq![':'] + tail) + right + path
                + trail,
            fallback_host,
            fallback_port,
        ) == (
            if host.len() == 0 {
                fallback_host
            } else {
                host
            },
            match number::port_number(tail) {
                Some(port) => port,
                None => fallback_port,
            },
        ),
{
    let front = opening + host + closing;
    let auth = front + seq![':'] + tail;
    let n = front.len() as int;
    law_authority_of_any_url(lead, scheme, left, auth, right, path, trail);
    assert(auth[n] == ':');
    assert forall|i: int| n < i < auth.len() implies #[trigger] auth[i] != ':' by {
        assert(auth[i] == tail[i - n - 1]);
    }
    text::lemma_last_index_is(auth, ':', n);
    assert(auth.skip(n + 1) =~= tail);
    assert(auth.take(n) =~= front);
    text::law_trimming_keeps_the_middle(opening, host, closing, CharClass::Bracket);
}

/// The library reads host and port back from any URL that spells them out, and
/// takes the fallback for what a URL without a colon does not say.
pub proof fn law_urls_are_read_like_this(
    url: &str,
    fallback_host: &str,
    fallback_port: u16,
    res: (String, u16),
    scheme: Seq<char>,
    host: Seq<char>,
    port: u16,
    path: Seq<char>,
)
    requires
        call_ensures(parse_endpoint, (url, fallback_host, fallback_port), res),
        scheme == ""@ || scheme == "http://"@ || scheme == "https://"@,
        path.len() == 0 || path.first() == '/',
        host.len() > 0,
        forall|i: int| 0 <= i < host.len() ==> #[trigger] host[i] != '/' && host[i] != ':',
        !text::is_white_space(host.first()),
        !text::is_white_space(host.last()),
        !CharClass::Bracket.has(host.first()),
        !CharClass::Bracket.has(host.last()),
    ensures
        url@ == scheme + (host + seq![':'] + number::decimal(port as nat)) + path ==> res.0@ == host
            && res.1 == port,
        url@ == scheme + host + path ==> res.0@ == host && res.1 == fallback_port,
        (forall|i: int| 0 <= i < url@.len() ==> text::is_white_space(#[trigger] url@[i]))
            ==> res.0@ == fallback_host@ && res.1 == fallback_port,
{
    if url@ == scheme + (host + seq![':'] + number::decimal(port as nat)) + path {
        law_host_and_port_read_back(scheme, host, port, path, fallback_host@, fallback_port);
    }
    if url@ == scheme + host + path {
        law_missing_port_falls_back(scheme, host, path, fallback_host@, fallback_port);
    }
    if forall|i: int| 0 <= i < url@.len() ==> text::is_white_space(#[trigger] url@[i]) {
        law_blank_url_falls_back(url@, fallback_host@, fallback_port);
    }
}

} // verus!
