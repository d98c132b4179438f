//! The address of a creator's page, and how it is read.
//!
//! An address is accepted where it is spelled
//! `[http://|https://][www.]<host>/<service>/user/<creator>`, the host being
//! one of the two supported sites. Service and creator are not empty and hold
//! no line feed. Where `/user/` could separate them at more than one place,
//! the last such place is the one: the service is as long as it can be.

use crate::text::{chars_of, has_char, join, matches_at, occurs_at};
use vstd::prelude::*;
use vstd::string::*;

verus! {

/// The site, the service and the creator that an address names, and the
/// address in its one normal spelling.
#[derive(Debug, PartialEq, Eq)]
pub struct CreatorTarget {
    pub base_url: String,
    pub service: String,
    pub creator_id: String,
    pub canonical_url: String,
}

/// A target as plain text.
pub struct TargetView {
    pub base_url: Seq<char>,
    pub service: Seq<char>,
    pub creator_id: Seq<char>,
    pub canonical_url: Seq<char>,
}

impl View for CreatorTarget {
    type V = TargetView;

    open spec fn view(&self) -> TargetView {
        TargetView {
            base_url: self.base_url@,
            service: self.service@,
            creator_id: self.creator_id@,
            canonical_url: self.canonical_url@,
        }
    }
}

/// An address may begin with one of the two schemes, or with none.
pub open spec fn is_scheme(s: Seq<char>) -> bool {
    s == Seq::<char>::empty() || s == "http://"@ || s == "https://"@
}

/// After the scheme `www.` may stand, or nothing.
pub open spec fn is_www(s: Seq<char>) -> bool {
    s == Seq::<char>::empty() || s == "www."@
}

/// The two supported sites.
pub open spec fn is_host(s: Seq<char>) -> bool {
    s == "coomer.party"@ || s == "kemono.party"@
}

/// A service or a creator: not empty, and without a line feed.
pub open spec fn is_segment(s: Seq<char>) -> bool {
    s.len() > 0 && !s.contains('\n')
}

/// `url` is spelled with exactly these parts.
pub open spec fn spells(
    url: Seq<char>,
    scheme: Seq<char>,
    www: Seq<char>,
    host: Seq<char>,
    service: Seq<char>,
    creator: Seq<char>,
) -> bool {
    &&& is_scheme(scheme)
    &&& is_www(www)
    &&& is_host(host)
    &&& is_segment(service)
    &&& is_segment(creator)
    &&& url == scheme + www + host + "/"@ + service + "/user/"@ + creator
}

/// `url` can be read as naming `service` and `creator` on `host`.
pub open spec fn splits(
    url: Seq<char>,
    host: Seq<char>,
    service: Seq<char>,
    creator: Seq<char>,
) -> bool {
    exists|scheme: Seq<char>, www: Seq<char>| spells(url, scheme, www, host, service, creator)
}

/// `url` is the address of a creator's page.
pub open spec fn is_creator_url(url: Seq<char>) -> bool {
    exists|host: Seq<char>, service: Seq<char>, creator: Seq<char>|
        splits(url, host, service, creator)
}

/// The reading of `url` that is taken: among all of them, the one with the
/// longest service.
pub open spec fn reads_as(
    url: Seq<char>,
    host: Seq<char>,
    service: Seq<char>,
    creator: Seq<char>,
) -> bool {
    &&& splits(url, host, service, creator)
    &&& forall|h: Seq<char>, s: Seq<char>, c: Seq<char>| #[trigger]
        splits(url, h, s, c) ==> s.len() <= service.len()
}

/// The target that these parts make. The normal spelling always has the
/// scheme `https://` and never `www.`.
pub open spec fn target_of(host: Seq<char>, service: Seq<char>, creator: Seq<char>) -> TargetView {
    TargetView {
        base_url: "https://"@ + host,
        service: service,
        creator_id: creator,
        canonical_url: "https://"@ + host + "/"@ + service + "/user/"@ + creator,
    }
}

/// The target that `url` names, where it is the address of a creator's page.
pub open spec fn creator_target(url: Seq<char>) -> Option<TargetView> {
    if exists|h: Seq<char>, s: Seq<char>, c: Seq<char>| reads_as(url, h, s, c) {
        let (h, s, c) = choose|h: Seq<char>, s: Seq<char>, c: Seq<char>| reads_as(url, h, s, c);
        Some(target_of(h, s, c))
    } else {
        None
    }
}

/// Where the scheme of `url` ends.
spec fn scheme_end(url: Seq<char>) -> int {
    if occurs_at(url, "https://"@, 0) {
        8
    } else if occurs_at(url, "http://"@, 0) {
        7
    } else {
        0
    }
}

/// Where the host of `url` begins.
spec fn host_start(url: Seq<char>) -> int {
    if occurs_at(url, "www."@, scheme_end(url)) {
        scheme_end(url) + 4
    } else {
        scheme_end(url)
    }
}

/// The supported host that stands in `url` after scheme and `www.`.
spec fn host_in(url: Seq<char>) -> Option<Seq<char>> {
    if occurs_at(url, "coomer.party"@, host_start(url)) {
        Some("coomer.party"@)
    } else if occurs_at(url, "kemono.party"@, host_start(url)) {
        Some("kemono.party"@)
    } else {
        None
    }
}

/// Where the service of `url` begins: after the host and one `/`.
spec fn path_start(url: Seq<char>) -> int {
    host_start(url) + 13
}

/// `url` begins as an address must, and holds no line feed.
spec fn well_headed(url: Seq<char>) -> bool {
    &&& host_in(url) is Some
    &&& occurs_at(url, "/"@, host_start(url) + 12)
    &&& !url.contains('\n')
}

/// The `/user/` at position `k` of `url` can separate service and creator.
spec fn cuts_at(url: Seq<char>, k: int) -> bool {
    &&& path_start(url) < k
    &&& occurs_at(url, "/user/"@, k)
    &&& k + 6 < url.len()
}

/// What the fixed texts of an address are made of.
proof fn reveal_literals()
    ensures
        "https://"@ =~= seq!['h', 't', 't', 'p', 's', ':', '/', '/'],
        "http://"@ =~= seq!['h', 't', 't', 'p', ':', '/', '/'],
        "www."@ =~= seq!['w', 'w', 'w', '.'],
        "coomer.party"@ =~= seq!['c', 'o', 'o', 'm', 'e', 'r', '.', 'p', 'a', 'r', 't', 'y'],
        "kemono.party"@ =~= seq!['k', 'e', 'm', 'o', 'n', 'o', '.', 'p', 'a', 'r', 't', 'y'],
        "/"@ =~= seq!['/'],
        "/user/"@ =~= seq!['/', 'u', 's', 'e', 'r', '/'],
{
    reveal_strlit("https://");
    reveal_strlit("http://");
    reveal_strlit("www.");
    reveal_strlit("coomer.party");
    reveal_strlit("kemono.party");
    reveal_strlit("/");
    reveal_strlit("/user/");
}

/// Where each part of a spelled address stands in it.
proof fn lemma_spelled_parts(
    url: Seq<char>,
    scheme: Seq<char>,
    www: Seq<char>,
    host: Seq<char>,
    service: Seq<char>,
    creator: Seq<char>,
)
    requires
        spells(url, scheme, www, host, service, creator),
    ensures
        host.len() == 12,
        occurs_at(url, scheme, 0),
        occurs_at(url, www, scheme.len() as int),
        occurs_at(url, host, (scheme.len() + www.len()) as int),
        occurs_at(url, "/"@, (scheme.len() + www.len() + 12) as int),
        occurs_at(url, service, (scheme.len() + www.len() + 13) as int),
        occurs_at(url, "/user/"@, (scheme.len() + www.len() + 13 + service.len()) as int),
        occurs_at(url, creator, (scheme.len() + www.len() + 19 + service.len()) as int),
        url.len() == scheme.len() + www.len() + 19 + service.len() + creator.len(),
{
    reveal_literals();
    let a = scheme.len() as int;
    let b = a + www.len();
    let c = b + 12;
    let d = c + 1;
    let e = d + service.len();
    let f = e + 6;
    assert(url.subrange(0, a) =~= scheme);
    assert(url.subrange(a, b) =~= www);
    assert(url.subrange(b, c) =~= host);
    assert(url.subrange(c, d) =~= "/"@);
    assert(url.subrange(d, e) =~= service);
    assert(url.subrange(e, f) =~= "/user/"@);
    assert(url.subrange(f, f + creator.len()) =~= creator);
}

/// The scheme that stands at the front of `url` is the one that
/// `scheme_end` finds, given that no scheme's first letter follows it.
proof fn lemma_scheme_end(url: Seq<char>, scheme: Seq<char>)
    requires
        is_scheme(scheme),
        occurs_at(url, scheme, 0),
        scheme.len() < url.len(),
        url[scheme.len() as int] != 'h',
    ensures
        scheme_end(url) == scheme.len(),
{
    reveal_strlit("https://");
    reveal_strlit("http://");
    let a = scheme.len() as int;
    if a > 0 {
        assert(url.subrange(0, a)[4] == url[4]);
    }
    if occurs_at(url, "https://"@, 0) {
        assert(url.subrange(0, 8)[0] == url[0]);
        assert(url.subrange(0, 8)[4] == url[4]);
    }
    if occurs_at(url, "http://"@, 0) {
        assert(url.subrange(0, 7)[0] == url[0]);
        assert(url.subrange(0, 7)[4] == url[4]);
    }
}

/// `www.` stands at `a` exactly where the address was spelled with it,
/// given that a host's first letter follows.
proof fn lemma_www_end(url: Seq<char>, www: Seq<char>, a: int)
    requires
        is_www(www),
        occurs_at(url, www, a),
        a + www.len() < url.len(),
        url[a + www.len()] != 'w',
    ensures
        occurs_at(url, "www."@, a) <==> www.len() == 4,
        www.len() == 0 || www.len() == 4,
{
    reveal_strlit("www.");
    if occurs_at(url, "www."@, a) {
        assert(url.subrange(a, a + 4)[0] == url[a]);
    }
}

/// Only one of the two hosts can stand at `b`.
proof fn lemma_host_here(url: Seq<char>, host: Seq<char>, b: int)
    requires
        is_host(host),
        occurs_at(url, host, b),
    ensures
        host.len() == 12,
        url[b] == host[0],
        url[b] == 'c' || url[b] == 'k',
        occurs_at(url, "coomer.party"@, b) <==> host == "coomer.party"@,
        occurs_at(url, "kemono.party"@, b) <==> host == "kemono.party"@,
{
    reveal_strlit("coomer.party");
    reveal_strlit("kemono.party");
    assert(url.subrange(b, b + 12)[0] == url[b]);
}

/// A text made of seven parts without a line feed holds none.
proof fn lemma_no_line_feed(
    url: Seq<char>,
    scheme: Seq<char>,
    www: Seq<char>,
    host: Seq<char>,
    service: Seq<char>,
    creator: Seq<char>,
)
    requires
        spells(url, scheme, www, host, service, creator),
    ensures
        !url.contains('\n'),
{
    reveal_literals();
    let head = scheme + www + host + "/"@;
    assert(!head.contains('\n')) by {
        if head.contains('\n') {
            let i = head.index_of('\n');
            assert(head[i] == '\n');
        }
    }
    let tail = service + "/user/"@ + creator;
    assert(!tail.contains('\n')) by {
        if tail.contains('\n') {
            let i = tail.index_of('\n');
            if i < service.len() {
                assert(service[i] == '\n');
            } else if i >= service.len() + 6 {
                assert(creator[i - service.len() - 6] == '\n');
            }
        }
    }
    assert(url =~= head + tail);
    if url.contains('\n') {
        let i = url.index_of('\n');
        if i < head.len() {
            assert(head[i] == '\n');
        } else {
            assert(tail[i - head.len()] == '\n');
        }
    }
}

/// A spelled address begins as `scheme_end`, `host_start` and `host_in` say,
/// and `/user/` cuts it where the service ends.
proof fn lemma_spelled_head(
    url: Seq<char>,
    scheme: Seq<char>,
    www: Seq<char>,
    host: Seq<char>,
    service: Seq<char>,
    creator: Seq<char>,
)
    requires
        spells(url, scheme, www, host, service, creator),
    ensures
        scheme_end(url) == scheme.len(),
        host_start(url) == scheme.len() + www.len(),
        host_in(url) == Some(host),
        well_headed(url),
        cuts_at(url, path_start(url) + service.len()),
        service == url.subrange(path_start(url), path_start(url) + service.len()),
        creator == url.subrange(path_start(url) + service.len() + 6, url.len() as int),
{
    lemma_spelled_parts(url, scheme, www, host, service, creator);
    lemma_no_line_feed(url, scheme, www, host, service, creator);
    let a = scheme.len() as int;
    let b = a + www.len();
    lemma_host_here(url, host, b);
    lemma_www_end(url, www, a);
    if www.len() > 0 {
        reveal_strlit("www.");
        assert(url.subrange(a, a + 4)[0] == url[a]);
    }
    lemma_scheme_end(url, scheme);
}

/// An address that begins as it must is spelled with what stands before and
/// after any `/user/` that can cut it.
proof fn lemma_cut_spells(url: Seq<char>, k: int)
    requires
        well_headed(url),
        cuts_at(url, k),
    ensures
        splits(
            url,
            host_in(url).unwrap(),
            url.subrange(path_start(url), k),
            url.subrange(k + 6, url.len() as int),
        ),
{
    reveal_literals();
    let a = scheme_end(url);
    let b = host_start(url);
    let p = path_start(url);
    let scheme = url.subrange(0, a);
    let www = url.subrange(a, b);
    let host = host_in(url).unwrap();
    let service = url.subrange(p, k);
    let creator = url.subrange(k + 6, url.len() as int);
    assert(scheme =~= Seq::<char>::empty() || a > 0);
    assert(www =~= Seq::<char>::empty() || b > a);
    assert(host == url.subrange(b, b + 12));
    assert(!service.contains('\n')) by {
        if service.contains('\n') {
            assert(url[p + service.index_of('\n')] == '\n');
        }
    }
    assert(!creator.contains('\n')) by {
        if creator.contains('\n') {
            assert(url[k + 6 + creator.index_of('\n')] == '\n');
        }
    }
    assert(url =~= scheme + www + host + "/"@ + service + "/user/"@ + creator);
    assert(spells(url, scheme, www, host, service, creator));
}

/// No address is spelled by a text that does not begin as one must.
proof fn lemma_not_headed(url: Seq<char>)
    requires
        !well_headed(url),
    ensures
        !is_creator_url(url),
        creator_target(url) is None,
{
    assert forall|h: Seq<char>, s: Seq<char>, c: Seq<char>| !splits(url, h, s, c) by {
        if splits(url, h, s, c) {
            let (scheme, www) = choose|scheme: Seq<char>, www: Seq<char>|
                spells(url, scheme, www, h, s, c);
            lemma_spelled_head(url, scheme, www, h, s, c);
        }
    }
}

/// No address is spelled by a text that no `/user/` can cut.
proof fn lemma_no_cut(url: Seq<char>)
    requires
        forall|k: int| !cuts_at(url, k),
    ensures
        !is_creator_url(url),
        creator_target(url) is None,
{
    assert forall|h: Seq<char>, s: Seq<char>, c: Seq<char>| !splits(url, h, s, c) by {
        if splits(url, h, s, c) {
            let (scheme, www) = choose|scheme: Seq<char>, www: Seq<char>|
                spells(url, scheme, www, h, s, c);
            lemma_spelled_head(url, scheme, www, h, s, c);
        }
    }
}

/// The last `/user/` that can cut an address gives the reading that is taken.
proof fn lemma_last_cut(url: Seq<char>, k: int)
    requires
        well_headed(url),
        cuts_at(url, k),
        forall|j: int| k < j ==> !cuts_at(url, j),
    ensures
        reads_as(
            url,
            host_in(url).unwrap(),
            url.subrange(path_start(url), k),
            url.subrange(k + 6, url.len() as int),
        ),
{
    lemma_cut_spells(url, k);
    assert forall|h: Seq<char>, s: Seq<char>, c: Seq<char>| #[trigger]
        splits(url, h, s, c) implies s.len() <= k - path_start(url) by {
        let (scheme, www) = choose|scheme: Seq<char>, www: Seq<char>|
            spells(url, scheme, www, h, s, c);
        lemma_spelled_head(url, scheme, www, h, s, c);
    }
}

/// An address has one reading only.
pub proof fn lemma_reading_unique(
    url: Seq<char>,
    h1: Seq<char>,
    s1: Seq<char>,
    c1: Seq<char>,
    h2: Seq<char>,
    s2: Seq<char>,
    c2: Seq<char>,
)
    requires
        reads_as(url, h1, s1, c1),
        reads_as(url, h2, s2, c2),
    ensures
        h1 == h2,
        s1 == s2,
        c1 == c2,
{
    let (scheme1, www1) = choose|scheme: Seq<char>, www: Seq<char>|
        spells(url, scheme, www, h1, s1, c1);
    let (scheme2, www2) = choose|scheme: Seq<char>, www: Seq<char>|
        spells(url, scheme, www, h2, s2, c2);
    lemma_spelled_head(url, scheme1, www1, h1, s1, c1);
    lemma_spelled_head(url, scheme2, www2, h2, s2, c2);
}

/// The reading of an address fixes the target that it names.
pub proof fn lemma_target_of_reading(
    url: Seq<char>,
    host: Seq<char>,
    service: Seq<char>,
    creator: Seq<char>,
)
    requires
        reads_as(url, host, service, creator),
    ensures
        is_creator_url(url),
        creator_target(url) == Some(target_of(host, service, creator)),
{
    let (h, s, c) = choose|h: Seq<char>, s: Seq<char>, c: Seq<char>| reads_as(url, h, s, c);
    lemma_reading_unique(url, host, service, creator, h, s, c);
}

/// Among the places where `/user/` can cut an address there is a last one.
proof fn lemma_has_last_cut(url: Seq<char>, k: int)
    requires
        cuts_at(url, k),
    ensures
        exists|m: int| cuts_at(url, m) && forall|j: int| m < j ==> !cuts_at(url, j),
    decreases url.len() - k,
{
    if exists|j: int| k < j && cuts_at(url, j) {
        let j = choose|j: int| k < j && cuts_at(url, j);
        lemma_has_last_cut(url, j);
    } else {
        assert(cuts_at(url, k) && forall|j: int| k < j ==> !cuts_at(url, j));
    }
}

/// Exactly the addresses of creators' pages name a target.
pub proof fn lemma_target_iff_creator_url(url: Seq<char>)
    ensures
        creator_target(url) is Some <==> is_creator_url(url),
{
    if is_creator_url(url) {
        let (h, s, c) = choose|h: Seq<char>, s: Seq<char>, c: Seq<char>| splits(url, h, s, c);
        let (scheme, www) = choose|scheme: Seq<char>, www: Seq<char>|
            spells(url, scheme, www, h, s, c);
        lemma_spelled_head(url, scheme, www, h, s, c);
        lemma_has_last_cut(url, path_start(url) + s.len());
        let m = choose|m: int| cuts_at(url, m) && forall|j: int| m < j ==> !cuts_at(url, j);
        lemma_last_cut(url, m);
    }
}

/// Two spellings of one text begin alike: with the same scheme, with or
/// without `www.` alike, and with the same host.
proof fn lemma_same_head(
    url: Seq<char>,
    scheme1: Seq<char>,
    www1: Seq<char>,
    h1: Seq<char>,
    s1: Seq<char>,
    c1: Seq<char>,
    scheme2: Seq<char>,
    www2: Seq<char>,
    h2: Seq<char>,
    s2: Seq<char>,
    c2: Seq<char>,
)
    requires
        spells(url, scheme1, www1, h1, s1, c1),
        spells(url, scheme2, www2, h2, s2, c2),
    ensures
        scheme1 == scheme2,
        www1 == www2,
        h1 == h2,
{
    lemma_spelled_head(url, scheme1, www1, h1, s1, c1);
    lemma_spelled_head(url, scheme2, www2, h2, s2, c2);
    lemma_spelled_parts(url, scheme1, www1, h1, s1, c1);
    lemma_spelled_parts(url, scheme2, www2, h2, s2, c2);
    assert(scheme1 =~= url.subrange(0, scheme1.len() as int));
    assert(scheme2 =~= url.subrange(0, scheme2.len() as int));
    assert(www1 =~= url.subrange(scheme1.len() as int, (scheme1.len() + www1.len()) as int));
    assert(www2 =~= url.subrange(scheme2.len() as int, (scheme2.len() + www2.len()) as int));
}

/// The normal spelling of what an address reads as reads as the same.
proof fn lemma_normal_reading(
    url: Seq<char>,
    scheme: Seq<char>,
    www: Seq<char>,
    h: Seq<char>,
    s: Seq<char>,
    c: Seq<char>,
)
    requires
        spells(url, scheme, www, h, s, c),
        reads_as(url, h, s, c),
    ensures
        reads_as(target_of(h, s, c).canonical_url, h, s, c),
{
    let normal = target_of(h, s, c).canonical_url;
    let none = Seq::<char>::empty();
    assert(normal =~= "https://"@ + none + h + "/"@ + s + "/user/"@ + c);
    assert(spells(normal, "https://"@, none, h, s, c));
    assert forall|h2: Seq<char>, s2: Seq<char>, c2: Seq<char>| #[trigger]
        splits(normal, h2, s2, c2) implies s2.len() <= s.len() by {
        let (scheme2, www2) = choose|scheme2: Seq<char>, www2: Seq<char>|
            spells(normal, scheme2, www2, h2, s2, c2);
        lemma_same_head(normal, "https://"@, none, h, s, c, scheme2, www2, h2, s2, c2);
        lemma_same_path(url, scheme, www, normal, scheme2, www2, h, s, c, s2, c2);
        assert(splits(url, h, s2, c2));
    }
}

/// The target of an address is put together from the parts of its reading,
/// and its normal spelling is itself an address, of the same target.
pub proof fn lemma_canonical_url(url: Seq<char>)
    requires
        is_creator_url(url),
    ensures
        creator_target(url) is Some,
        ({
            let target = creator_target(url).unwrap();
            &&& target.canonical_url == target.base_url + "/"@ + target.service + "/user/"@
                + target.creator_id
            &&& is_creator_url(target.canonical_url)
            &&& creator_target(target.canonical_url) == Some(target)
        }),
{
    lemma_target_iff_creator_url(url);
    let (h, s, c) = choose|h: Seq<char>, s: Seq<char>, c: Seq<char>| reads_as(url, h, s, c);
    let (scheme, www) = choose|scheme: Seq<char>, www: Seq<char>|
        spells(url, scheme, www, h, s, c);
    lemma_normal_reading(url, scheme, www, h, s, c);
    lemma_target_of_reading(target_of(h, s, c).canonical_url, h, s, c);
}

/// Two addresses of one host that agree after the host are cut alike.
proof fn lemma_same_path(
    url: Seq<char>,
    scheme: Seq<char>,
    www: Seq<char>,
    other: Seq<char>,
    scheme2: Seq<char>,
    www2: Seq<char>,
    host: Seq<char>,
    s: Seq<char>,
    c: Seq<char>,
    s2: Seq<char>,
    c2: Seq<char>,
)
    requires
        spells(url, scheme, www, host, s, c),
        spells(other, scheme2, www2, host, s, c),
        spells(other, scheme2, www2, host, s2, c2),
    ensures
        spells(url, scheme, www, host, s2, c2),
{
    let head = scheme + www + host + "/"@;
    let head2 = scheme2 + www2 + host + "/"@;
    assert(url =~= head + (s + "/user/"@ + c));
    assert(other =~= head2 + (s + "/user/"@ + c));
    assert(other =~= head2 + (s2 + "/user/"@ + c2));
    assert((s + "/user/"@ + c) =~= other.subrange(head2.len() as int, other.len() as int));
    assert((s2 + "/user/"@ + c2) =~= other.subrange(head2.len() as int, other.len() as int));
    assert(url =~= head + (s2 + "/user/"@ + c2));
    assert(url =~= scheme + www + host + "/"@ + s2 + "/user/"@ + c2);
}

/// Reads `url` as the address of a creator's page. Gives nothing where it
/// is not spelled as such an address.
pub fn parse_creator_url(url: &str) -> (r: Option<CreatorTarget>)
    ensures
        r is Some <==> is_creator_url(url@),
        match r {
            Some(target) => creator_target(url@) == Some(target@),
            None => creator_target(url@) is None,
        },
{
    let text = chars_of(url);
    let n: usize = text.len();
    if has_char(&text, '\n') {
        proof {
            lemma_not_headed(url@);
        }
        return None;
    }
    proof {
        reveal_literals();
    }
    let mut at: usize = 0;
    if matches_at(&text, &chars_of("https://"), 0) {
        at = 8;
    } else if matches_at(&text, &chars_of("http://"), 0) {
        at = 7;
    }
    if matches_at(&text, &chars_of("www."), at) {
        at = at + 4;
    }
    assert(at == host_start(url@));
    let host = if matches_at(&text, &chars_of("coomer.party"), at) {
        "coomer.party"
    } else if matches_at(&text, &chars_of("kemono.party"), at) {
        "kemono.party"
    } else {
        proof {
            lemma_not_headed(url@);
        }
        return None;
    };
    assert(host_in(url@) == Some(host@));
    if !matches_at(&text, &chars_of("/"), at + 12) {
        proof {
            lemma_not_headed(url@);
        }
        return None;
    }
    let start: usize = at + 13;
    assert(start == path_start(url@));
    assert(well_headed(url@));
    if n < 8 || n - 8 < start {
        proof {
            lemma_no_cut(url@);
        }
        return None;
    }
    let user = chars_of("/user/");
    let mut k: usize = n - 7;
    while k > start
        invariant
            start <= k <= n - 7,
            n == url@.len(),
            text@ == url@,
            user@ == "/user/"@,
            start == path_start(url@),
            well_headed(url@),
            host_in(url@) == Some(host@),
            forall|j: int| k < j ==> !cuts_at(url@, j),
        decreases k,
    {
        if matches_at(&text, &user, k) {
            proof {
                lemma_last_cut(url@, k as int);
                lemma_target_of_reading(
                    url@,
                    host@,
                    url@.subrange(start as int, k as int),
                    url@.subrange(k + 6, n as int),
                );
            }
            let service = String::from_str(url.substring_char(start, k));
            let creator_id = String::from_str(url.substring_char(k + 6, n));
            let base_url = join("https://", host);
            let mut canonical_url = join(base_url.as_str(), "/");
            canonical_url.append(service.as_str());
            canonical_url.append("/user/");
            canonical_url.append(creator_id.as_str());
            return Some(CreatorTarget { base_url, service, creator_id, canonical_url });
        }
        k -= 1;
    }
    proof {
        lemma_no_cut(url@);
    }
    None
}

} // verus!
