//! Laws of the gateway's addresses and response bodies.

use vstd::prelude::*;
use vstd::string::*;

use crate::dns;
use crate::gateway_client;
use crate::gateway_client::{GatewayView, UrlPartsView};
use crate::host;
use crate::text;

verus! {

// ── Cleartext ───────────────────────────────────────────────────────────────

/// Credentials never travel in the clear: the URL in use is no `http://` URL
/// whose host ([`host::host_part`]) is beyond this machine and its `.local`
/// neighbours.
pub proof fn no_cleartext_to_remote_hosts(url: Seq<char>)
    ensures
        !gateway_client::is_cleartext_remote(gateway_client::enforced(url)),
{
    reveal_strlit("http://");
    reveal_strlit("https://");
    if gateway_client::is_cleartext_remote(url) {
        let upgraded = gateway_client::enforced(url);
        assert(upgraded[4] == 's');
        assert("http://"@[4] == ':');
        if "http://"@.is_prefix_of(upgraded) {
            assert(upgraded.subrange(0, 7)[4] == upgraded[4]);
        }
    }
}

/// Enforcing TLS twice changes nothing over enforcing it once.
pub proof fn enforcing_is_idempotent(url: Seq<char>)
    ensures
        gateway_client::enforced(gateway_client::enforced(url)) == gateway_client::enforced(url),
{
    no_cleartext_to_remote_hosts(url);
}

/// An upgrade changes the scheme only: host, port and path stay.
pub proof fn upgrading_keeps_the_host(url: Seq<char>)
    requires
        gateway_client::is_cleartext_remote(url),
    ensures
        gateway_client::enforced(url).skip(8) == url.skip(7),
        host::host_part(gateway_client::enforced(url).skip(8))
            == host::host_part(url.skip(7)),
{
    reveal_strlit("https://");
    assert(gateway_client::enforced(url).skip(8) =~= url.skip(7));
}

// ── Failover ────────────────────────────────────────────────────────────────

/// A text that can stand as a domain in a URL.
pub open spec fn is_domain(domain: Seq<char>) -> bool {
    &&& forall|i: int|
        0 <= i < domain.len() ==> !host::ends_authority(#[trigger] domain[i]) && domain[i] != '@'
            && domain[i] != ':'
    &&& domain.len() > 0 ==> domain[0] != '['
}

/// A text that can stand as the path of a URL.
pub open spec fn is_path(path: Seq<char>) -> bool {
    path.len() > 0 ==> path[0] == '/'
}

proof fn lemma_authority(authority: Seq<char>, rest: Seq<char>)
    requires
        forall|i: int|
            0 <= i < authority.len() ==> !host::ends_authority(#[trigger] authority[i]),
        is_path(rest),
    ensures
        host::authority_len(authority + rest) == authority.len(),
    decreases authority.len(),
{
    let s = authority + rest;
    if authority.len() > 0 {
        let tail = authority.skip(1);
        assert forall|i: int| 0 <= i < tail.len() implies !host::ends_authority(
            #[trigger] tail[i],
        ) by {
            assert(tail[i] == authority[i + 1]);
        }
        lemma_authority(tail, rest);
        assert(s.skip(1) =~= tail + rest);
        assert(s[0] == authority[0]);
    } else {
        assert(s =~= rest);
    }
}

proof fn lemma_no_userinfo(s: Seq<char>)
    requires
        text::free_of(s, '@'),
    ensures
        host::userinfo_len(s) == 0,
    decreases s.len(),
{
    if s.len() > 0 {
        let t = s.drop_last();
        assert forall|i: int| 0 <= i < t.len() implies #[trigger] t[i] != '@' by {
            assert(t[i] == s[i]);
        }
        lemma_no_userinfo(t);
    }
}

/// A domain, with or without a port behind it, is the host of the URL that
/// it stands in.
proof fn lemma_host_part(domain: Seq<char>, port: Option<u16>, path: Seq<char>)
    requires
        is_domain(domain),
        is_path(path),
    ensures
        host::host_part(
            domain + match port {
                Some(port) => seq![':'] + text::decimal(port as nat),
                None => Seq::empty(),
            } + path,
        ) == domain,
{
    reveal_strlit("::1");
    let suffix = match port {
        Some(port) => seq![':'] + text::decimal(port as nat),
        None => Seq::empty(),
    };
    if let Some(port) = port {
        text::lemma_decimal(port as nat);
    }
    let authority = domain + suffix;
    assert forall|i: int| 0 <= i < authority.len() implies !host::ends_authority(
        #[trigger] authority[i],
    ) && authority[i] != '@' by {
        if i < domain.len() {
            assert(authority[i] == domain[i]);
        } else if i > domain.len() {
            assert(authority[i] == text::decimal(port->0 as nat)[i - domain.len() - 1]);
            assert(text::is_digit(authority[i]));
        }
    }
    lemma_authority(authority, path);
    lemma_no_userinfo(authority);
    assert((authority + path).take(authority.len() as int) =~= authority);
    assert(authority.skip(0) =~= authority);
    assert(authority.take(domain.len() as int) =~= domain);
    assert(text::free_of(domain, ':'));
    text::lemma_len_before(authority, domain.len(), ':');
    if authority =~= "::1"@ {
        assert(authority[0] == ':' && authority[1] == ':');
        if domain.len() > 0 {
            assert(domain[0] == authority[0]);
        } else {
            assert(text::is_digit(text::decimal(port->0 as nat)[0]));
        }
    }
    if authority.len() > 0 {
        assert(authority[0] != '[') by {
            if domain.len() > 0 {
                assert(domain[0] == authority[0]);
            }
        }
    }
}

/// A failover URL keeps the gateway's domain as its host, whatever port the
/// target listens on, so that certificates are validated against the domain.
pub proof fn failover_url_keeps_the_domain(
    scheme: Seq<char>,
    domain: Seq<char>,
    port: u16,
    path_prefix: Seq<char>,
)
    requires
        is_domain(domain),
        is_path(path_prefix),
    ensures
        (scheme + "://"@).is_prefix_of(
            gateway_client::target_url(scheme, domain, port, path_prefix),
        ),
        host::host_part(
            gateway_client::target_url(scheme, domain, port, path_prefix).skip(
                scheme.len() as int + 3,
            ),
        ) == domain,
{
    reveal_strlit("://");
    reveal_strlit(":");
    let url = gateway_client::target_url(scheme, domain, port, path_prefix);
    let shown = if gateway_client::is_default_port(scheme, port) {
        None
    } else {
        Some(port)
    };
    let suffix = match shown {
        Some(port) => seq![':'] + text::decimal(port as nat),
        None => Seq::empty(),
    };
    assert(url =~= scheme + "://"@ + (domain + suffix + path_prefix));
    assert(url.subrange(0, scheme.len() as int + 3) =~= scheme + "://"@);
    assert(url.skip(scheme.len() as int + 3) =~= domain + suffix + path_prefix);
    lemma_host_part(domain, shown, path_prefix);
}

proof fn lemma_trim_end_is_prefix(s: Seq<char>, c: char)
    ensures
        text::trim_end_matches(s, c).len() <= s.len(),
        text::trim_end_matches(s, c) == s.take(text::trim_end_matches(s, c).len() as int),
        text::trim_end_matches(s, c).len() > 0 ==> text::trim_end_matches(s, c).last() != c,
    decreases s.len(),
{
    let t = text::trim_end_matches(s, c);
    if s.len() > 0 && s.last() == c {
        lemma_trim_end_is_prefix(s.drop_last(), c);
        assert(s.drop_last().take(t.len() as int) =~= s.take(t.len() as int));
    } else {
        assert(s.take(s.len() as int) =~= s);
    }
}

/// After resolution there is one target for each address that was found, in
/// the same order; each connects to that address under a URL whose host is
/// the gateway's domain.
pub proof fn targets_mirror_the_lookup(
    g: GatewayView,
    parts: UrlPartsView,
    found: Seq<dns::SrvTarget>,
    i: int,
)
    requires
        parts.1 is Some,
        is_domain(parts.1->0),
        is_path(parts.3),
        0 <= i < found.len(),
    ensures
        gateway_client::with_targets(g, parts, found).targets.len() == found.len(),
        gateway_client::with_targets(g, parts, found).targets[i].addr == found[i].addr,
        host::host_part(
            gateway_client::with_targets(g, parts, found).targets[i].url.skip(
                parts.0.len() as int + 3,
            ),
        ) == parts.1->0,
{
    lemma_trim_end_is_prefix(parts.3, '/');
    failover_url_keeps_the_domain(
        parts.0,
        parts.1->0,
        found[i].port,
        text::trim_end_matches(parts.3, '/'),
    );
}

/// A lookup that finds nothing leaves the gateway as it was.
pub proof fn empty_lookup_changes_nothing(g: GatewayView, parts: UrlPartsView)
    ensures
        gateway_client::with_targets(g, parts, Seq::empty()) == g,
{
}

// ── Joining URLs ────────────────────────────────────────────────────────────

/// Slashes at the end of the base URL make no difference, and the path is
/// never preceded by one.
pub proof fn trailing_slashes_do_not_matter(base: Seq<char>, path: Seq<char>)
    ensures
        gateway_client::url_under(base.push('/'), path) == gateway_client::url_under(base, path),
        gateway_client::url_under(base, path).len() > path.len() ==> gateway_client::url_under(
            base,
            path,
        )[gateway_client::url_under(base, path).len() - path.len() - 1] != '/',
{
    assert(base.push('/').drop_last() =~= base);
    lemma_trim_end_is_prefix(base, '/');
}

// ── Response bodies ─────────────────────────────────────────────────────────

/// All chunks of a body, one behind the other.
pub open spec fn joined(chunks: Seq<Seq<u8>>) -> Seq<u8>
    decreases chunks.len(),
{
    if chunks.len() == 0 {
        Seq::empty()
    } else {
        joined(chunks.drop_last()) + chunks.last()
    }
}

/// The body that is kept after all chunks have been taken in; nothing if one
/// of them was rejected.
pub open spec fn kept(chunks: Seq<Seq<u8>>) -> Option<Seq<u8>>
    decreases chunks.len(),
{
    if chunks.len() == 0 {
        Some(Seq::empty())
    } else {
        match kept(chunks.drop_last()) {
            Some(body) => gateway_client::capped_append(body, chunks.last()),
            None => None,
        }
    }
}

/// A body is kept whole if it stays within the cap, and rejected otherwise,
/// however it is cut into chunks.
pub proof fn bodies_are_kept_whole_or_rejected(chunks: Seq<Seq<u8>>)
    ensures
        kept(chunks) == if joined(chunks).len() <= gateway_client::MAX_RESPONSE_BYTES {
            Some(joined(chunks))
        } else {
            None
        },
    decreases chunks.len(),
{
    if chunks.len() > 0 {
        bodies_are_kept_whole_or_rejected(chunks.drop_last());
    }
}

/// A body is limited to four megabytes, announced or not.
pub proof fn bodies_are_limited_to_four_megabytes(body: Seq<u8>, chunk: Seq<u8>, declared: u64)
    ensures
        body.len() + chunk.len() <= 4194304 ==> gateway_client::capped_append(body, chunk) == Some(
            body + chunk,
        ),
        body.len() + chunk.len() > 4194304 ==> gateway_client::capped_append(body, chunk) is None,
        gateway_client::declared_too_long(Some(declared)) <==> declared > 4194304,
        !gateway_client::declared_too_long(None),
{
}

// ── Which URLs are upgraded ─────────────────────────────────────────────────

/// Text that may stand between a host and what ends it: nothing, or a colon and
/// a port, whatever is written for one.
pub open spec fn is_port_part(port: Seq<char>) -> bool {
    &&& port.len() > 0 ==> port[0] == ':'
    &&& forall|i: int|
        0 <= i < port.len() ==> !host::ends_authority(#[trigger] port[i]) && port[i] != '@'
}

/// What ends a host and its port in a URL: the end, or one of four characters.
pub open spec fn ends_host(rest: Seq<char>) -> bool {
    rest.len() > 0 ==> rest[0] == '/' || rest[0] == '\\' || rest[0] == '?' || rest[0] == '#'
}

/// Text that may stand before a host: no character of it ends the authority,
/// and it is empty or ends with `@`.
pub open spec fn is_user_part(user: Seq<char>) -> bool {
    &&& forall|i: int| 0 <= i < user.len() ==> !host::ends_authority(#[trigger] user[i])
    &&& user.len() > 0 ==> user.last() == '@'
}

proof fn lemma_authority_then(authority: Seq<char>, rest: Seq<char>)
    requires
        forall|i: int|
            0 <= i < authority.len() ==> !host::ends_authority(#[trigger] authority[i]),
        ends_host(rest),
    ensures
        host::authority_len(authority + rest) == authority.len(),
    decreases authority.len(),
{
    let s = authority + rest;
    if authority.len() > 0 {
        let tail = authority.skip(1);
        assert forall|i: int| 0 <= i < tail.len() implies !host::ends_authority(
            #[trigger] tail[i],
        ) by {
            assert(tail[i] == authority[i + 1]);
        }
        lemma_authority_then(tail, rest);
        assert(s.skip(1) =~= tail + rest);
        assert(s[0] == authority[0]);
    } else {
        assert(s =~= rest);
    }
}

proof fn lemma_userinfo(user: Seq<char>, rest: Seq<char>)
    requires
        user.len() > 0 ==> user.last() == '@',
        text::free_of(rest, '@'),
    ensures
        host::userinfo_len(user + rest) == user.len(),
    decreases rest.len(),
{
    let s = user + rest;
    if rest.len() > 0 {
        let t = rest.drop_last();
        assert forall|i: int| 0 <= i < t.len() implies #[trigger] t[i] != '@' by {
            assert(t[i] == rest[i]);
        }
        lemma_userinfo(user, t);
        assert(s.drop_last() =~= user + t);
        assert(s.last() == rest[rest.len() - 1]);
    } else {
        assert(s =~= user);
    }
}

/// The host of a URL, where it is followed by a port or not.
proof fn lemma_host_of(user: Seq<char>, name: Seq<char>, port: Seq<char>, rest: Seq<char>)
    requires
        is_user_part(user),
        forall|i: int|
            0 <= i < name.len() ==> !host::ends_authority(#[trigger] name[i]) && name[i] != '@',
        forall|i: int|
            0 <= i < port.len() ==> !host::ends_authority(#[trigger] port[i]) && port[i] != '@',
        ends_host(rest),
    ensures
        host::host_part(user + name + port + rest) == host::host_name(name + port),
{
    let authority = user + name + port;
    let plain = name + port;
    assert forall|i: int| 0 <= i < plain.len() implies !host::ends_authority(
        #[trigger] plain[i],
    ) && plain[i] != '@' by {
        if i < name.len() {
            assert(plain[i] == name[i]);
        } else {
            assert(plain[i] == port[i - name.len()]);
        }
    }
    assert(authority =~= user + plain);
    assert forall|i: int| 0 <= i < authority.len() implies !host::ends_authority(
        #[trigger] authority[i],
    ) by {
        if i < user.len() {
            assert(authority[i] == user[i]);
        } else {
            assert(authority[i] == plain[i - user.len()]);
        }
    }
    lemma_authority_then(authority, rest);
    lemma_userinfo(user, plain);
    let whole = authority + rest;
    assert(whole.take(authority.len() as int) =~= authority);
    assert(authority.skip(user.len() as int) =~= plain);
}

/// A cleartext URL stays as it is for this machine and for `.local` names. To
/// any other name it is upgraded, in its scheme alone, whatever port, path or
/// user information stands beside the name.
pub proof fn cleartext_stays_for_local_names_only(
    user: Seq<char>,
    name: Seq<char>,
    port: Seq<char>,
    rest: Seq<char>,
)
    requires
        is_user_part(user),
        is_domain(name),
        name.len() > 0,
        is_port_part(port),
        ends_host(rest),
    ensures
        ({
            let url = "http://"@ + user + name + port + rest;
            let local = name == "localhost"@ || name == "127.0.0.1"@ || (name.len() >= 6
                && name.skip(name.len() - 6) == ".local"@);
            gateway_client::enforced(url) == if local {
                url
            } else {
                "https://"@ + user + name + port + rest
            }
        }),
{
    reveal_strlit("http://");
    reveal_strlit("https://");
    reveal_strlit("::1");
    reveal_strlit("[::1]");
    reveal_strlit(".local");
    let url = "http://"@ + user + name + port + rest;
    lemma_host_of(user, name, port, rest);
    assert(url.subrange(0, 7) =~= "http://"@);
    assert(url.skip(7) =~= user + name + port + rest);
    let plain = name + port;
    assert(plain.take(name.len() as int) =~= name);
    assert(text::free_of(name, ':'));
    text::lemma_len_before(plain, name.len(), ':');
    if plain =~= "::1"@ {
        assert(plain[0] == ':');
        assert(name[0] == plain[0]);
    }
    assert(plain[0] != '[') by {
        assert(name[0] == plain[0]);
    }
    assert(host::host_name(plain) == name);
    if name == "::1"@ {
        assert(name[0] == ':');
    }
    if name == "[::1]"@ {
        assert(name[0] == '[');
    }
    if ".local"@.is_suffix_of(name) {
        assert(name.subrange(name.len() - 6, name.len() as int) =~= name.skip(name.len() - 6));
    }
    if name.len() >= 6 {
        assert(name.subrange(name.len() - 6, name.len() as int) =~= name.skip(name.len() - 6));
    }
    assert("https://"@ + url.skip(7) =~= "https://"@ + user + name + port + rest);
}

/// Among addresses in brackets, cleartext stays for the loopback address only.
pub proof fn cleartext_stays_for_the_loopback_address_only(
    user: Seq<char>,
    inner: Seq<char>,
    port: Seq<char>,
    rest: Seq<char>,
)
    requires
        is_user_part(user),
        forall|i: int|
            0 <= i < inner.len() ==> !host::ends_authority(#[trigger] inner[i]) && inner[i] != '@'
                && inner[i] != ']',
        is_port_part(port),
        ends_host(rest),
    ensures
        ({
            let name = seq!['['] + inner + seq![']'];
            let url = "http://"@ + user + name + port + rest;
            gateway_client::enforced(url) == if inner == "::1"@ {
                url
            } else {
                "https://"@ + user + name + port + rest
            }
        }),
{
    reveal_strlit("http://");
    reveal_strlit("https://");
    reveal_strlit("::1");
    reveal_strlit("[::1]");
    reveal_strlit(".local");
    reveal_strlit("localhost");
    reveal_strlit("127.0.0.1");
    let name = seq!['['] + inner + seq![']'];
    let url = "http://"@ + user + name + port + rest;
    assert forall|i: int| 0 <= i < name.len() implies !host::ends_authority(#[trigger] name[i])
        && name[i] != '@' by {
        if 0 < i < name.len() - 1 {
            assert(name[i] == inner[i - 1]);
        }
    }
    lemma_host_of(user, name, port, rest);
    assert(url.subrange(0, 7) =~= "http://"@);
    assert(url.skip(7) =~= user + name + port + rest);
    let plain = name + port;
    let close = inner.len() + 1;
    assert(text::free_of(plain.take(close as int), ']')) by {
        assert forall|i: int| 0 <= i < close implies #[trigger] plain.take(close as int)[i]
            != ']' by {
            if i > 0 {
                assert(plain[i] == inner[i - 1]);
            }
        }
    }
    assert(plain[close as int] == ']');
    text::lemma_len_before(plain, close, ']');
    assert(plain.take(close as int + 1) =~= name);
    assert(host::host_name(plain) == name);
    assert(name[0] == '[' && name.last() == ']');
    if ".local"@.is_suffix_of(name) {
        assert(name.subrange(name.len() - 6, name.len() as int)[5] == name.last());
        assert(".local"@[5] == 'l');
    }
    assert("localhost"@[0] == 'l' && "127.0.0.1"@[0] == '1' && "::1"@[0] == ':');
    if inner == "::1"@ {
        assert(name =~= "[::1]"@);
    }
    if name == "[::1]"@ {
        assert(inner =~= name.subrange(1, name.len() - 1));
        assert(inner =~= "::1"@);
    }
    assert("https://"@ + url.skip(7) =~= "https://"@ + user + name + port + rest);
}

/// Brackets count only if nothing but a port follows them: with anything else
/// behind it, an address in brackets is no local host.
pub proof fn nothing_may_follow_the_brackets(
    user: Seq<char>,
    inner: Seq<char>,
    tail: Seq<char>,
    rest: Seq<char>,
)
    requires
        is_user_part(user),
        forall|i: int|
            0 <= i < inner.len() ==> !host::ends_authority(#[trigger] inner[i]) && inner[i] != '@'
                && inner[i] != ']',
        inner.len() > 0,
        inner[0] == ':',
        forall|i: int|
            0 <= i < tail.len() ==> !host::ends_authority(#[trigger] tail[i]) && tail[i] != '@',
        tail.len() > 0,
        tail[0] != ':',
        ends_host(rest),
    ensures
        ({
            let name = seq!['['] + inner + seq![']'];
            gateway_client::enforced("http://"@ + user + name + tail + rest) == "https://"@ + user
                + name + tail + rest
        }),
{
    reveal_strlit("http://");
    reveal_strlit("https://");
    reveal_strlit("::1");
    reveal_strlit("[::1]");
    reveal_strlit(".local");
    reveal_strlit("localhost");
    reveal_strlit("127.0.0.1");
    let name = seq!['['] + inner + seq![']'];
    let url = "http://"@ + user + name + tail + rest;
    assert forall|i: int| 0 <= i < name.len() implies !host::ends_authority(#[trigger] name[i])
        && name[i] != '@' by {
        if 0 < i < name.len() - 1 {
            assert(name[i] == inner[i - 1]);
        }
    }
    lemma_host_of(user, name, tail, rest);
    assert(url.subrange(0, 7) =~= "http://"@);
    assert(url.skip(7) =~= user + name + tail + rest);
    let plain = name + tail;
    let close = inner.len() + 1;
    assert(text::free_of(plain.take(close as int), ']')) by {
        assert forall|i: int| 0 <= i < close implies #[trigger] plain.take(close as int)[i]
            != ']' by {
            if i > 0 {
                assert(plain[i] == inner[i - 1]);
            }
        }
    }
    assert(plain[close as int] == ']');
    text::lemma_len_before(plain, close, ']');
    assert(plain[close as int + 1] == tail[0]);
    assert(plain[0] == '[' && plain[1] == ':');
    assert(plain != "::1"@) by {
        assert("::1"@[0] == ':');
    }
    assert(plain.take(1) =~= seq!['[']);
    text::lemma_len_before(plain, 1, ':');
    assert(host::host_name(plain) =~= seq!['[']);
    assert("https://"@ + url.skip(7) =~= "https://"@ + user + name + tail + rest);
}

/// URLs of any other scheme stay as they are.
pub proof fn other_schemes_are_kept(url: Seq<char>)
    requires
        !"http://"@.is_prefix_of(url),
    ensures
        gateway_client::enforced(url) == url,
{
}

// ── What requests look like ─────────────────────────────────────────────────

/// The URL of a target is scheme, domain, port and path, in that order; the
/// port is left out if it is 443 with `https` or 80 with any other scheme, and
/// only then.
pub proof fn target_urls_show_other_ports(
    scheme: Seq<char>,
    domain: Seq<char>,
    port: u16,
    path_prefix: Seq<char>,
)
    ensures
        (scheme == "https"@ && port == 443) || (scheme != "https"@ && port == 80)
            ==> gateway_client::target_url(scheme, domain, port, path_prefix) == scheme + "://"@
            + domain + path_prefix,
        !((scheme == "https"@ && port == 443) || (scheme != "https"@ && port == 80))
            ==> gateway_client::target_url(scheme, domain, port, path_prefix) == scheme + "://"@
            + domain + ":"@ + text::decimal(port as nat) + path_prefix,
{
    assert(scheme + "://"@ + (domain + ":"@ + text::decimal(port as nat)) + path_prefix =~= scheme
        + "://"@ + domain + ":"@ + text::decimal(port as nat) + path_prefix);
}

/// A path stands right behind its base URL.
pub proof fn paths_stand_behind_the_base(base: Seq<char>, path: Seq<char>)
    requires
        base.len() > 0 ==> base.last() != '/',
    ensures
        gateway_client::url_under(base, path) == base + path,
{
}

/// Attempt `idx` goes to the resolved target with that number, under the URL of
/// that target. Only if there is no such target does it go over the base
/// connection.
pub proof fn attempts_go_to_their_target(
    g: GatewayView,
    request: gateway_client::HttpRequest,
    method: gateway_client::HttpMethod,
    idx: usize,
    path: Seq<char>,
)
    requires
        gateway_client::asks(g, request, method, idx as int, path),
    ensures
        request.method == method,
        idx < g.targets.len() ==> request.route == gateway_client::Route::Target(idx)
            && request.url@ == gateway_client::url_under(g.targets[idx as int].url, path),
        idx >= g.targets.len() ==> request.route == gateway_client::Route::Base && request.url@
            == gateway_client::url_under(g.base_url, path),
{
}

/// Where an attempt goes depends on its number and path.
pub proof fn attempts_are_routed(g: GatewayView, idx: usize, path: Seq<char>)
    ensures
        idx < g.targets.len() ==> gateway_client::request_target(g, idx as int, path) == (
            gateway_client::Route::Target(idx),
            gateway_client::url_under(g.targets[idx as int].url, path),
        ),
        idx >= g.targets.len() ==> gateway_client::request_target(g, idx as int, path) == (
            gateway_client::Route::Base,
            gateway_client::url_under(g.base_url, path),
        ),
        gateway_client::target_count(g) >= 1,
        g.targets.len() > 0 ==> gateway_client::target_count(g) == g.targets.len(),
        g.targets.len() == 0 ==> gateway_client::target_count(g) == 1,
{
}

/// A request over the base connection goes to the base URL, by the method that
/// it is for, and a request that bears a token bears that one.
pub proof fn base_requests_go_to_the_base(
    g: GatewayView,
    request: gateway_client::HttpRequest,
    method: gateway_client::HttpMethod,
    path: Seq<char>,
    token: Seq<char>,
)
    ensures
        gateway_client::asks_base(g, request, method, path) ==> request.method == method
            && request.route == gateway_client::Route::Base && request.url@
            == gateway_client::url_under(g.base_url, path),
        gateway_client::bears(request, token) ==> request.bearer is Some && request.bearer->0@
            == token,
{
}

/// A gateway with a domain is looked up for TLS if its scheme is `https` and for
/// TCP otherwise, with its port or the one that the scheme implies. One with an
/// address, or without a host, is not looked up.
pub proof fn gateways_are_looked_up_by_domain(
    scheme: Seq<char>,
    domain: Seq<char>,
    port: Option<u16>,
    path: Seq<char>,
)
    ensures
        gateway_client::srv_query_of((scheme, None, port, path)) is None,
        host::dotted_quad(domain) is Some ==> gateway_client::srv_query_of(
            (scheme, Some(domain), port, path),
        ) is None,
        host::dotted_quad(domain) is None ==> gateway_client::srv_query_of(
            (scheme, Some(domain), port, path),
        ) == Some(
            (
                domain,
                if scheme == "https"@ {
                    dns::SipTransport::Tls
                } else {
                    dns::SipTransport::Tcp
                },
                match port {
                    Some(port) => port,
                    None => if scheme == "https"@ {
                        443
                    } else {
                        80
                    },
                },
            ),
        ),
{
}

/// Each target that was found is asked under its own port, at its own address,
/// below the path of the base URL; base URL and key stay.
pub proof fn targets_are_asked_at_their_port(
    g: GatewayView,
    parts: UrlPartsView,
    found: Seq<dns::SrvTarget>,
    i: int,
)
    requires
        parts.1 is Some,
        0 <= i < found.len(),
    ensures
        ({
            let h = gateway_client::with_targets(g, parts, found);
            let t = h.targets[i];
            &&& h.base_url == g.base_url
            &&& h.api_key == g.api_key
            &&& h.targets.len() == found.len()
            &&& t.addr == found[i].addr
            &&& t.domain == parts.1->0
            &&& t.url == gateway_client::target_url(
                parts.0,
                parts.1->0,
                found[i].port,
                text::trim_end_matches(parts.3, '/'),
            )
        }),
{
}

/// Without a domain there are no targets to adopt.
pub proof fn addresses_have_no_targets(
    g: GatewayView,
    scheme: Seq<char>,
    port: Option<u16>,
    path: Seq<char>,
    found: Seq<dns::SrvTarget>,
)
    ensures
        gateway_client::with_targets(g, (scheme, None, port, path), found) == g,
{
}

/// A URL, and a target, is noted part by part.
pub proof fn parts_are_noted_one_by_one(
    parts: gateway_client::UrlParts,
    target: gateway_client::ResolvedTarget,
)
    ensures
        parts@.0 == parts.scheme@,
        match parts.domain {
            Some(domain) => parts@.1 == Some(domain@),
            None => parts@.1 is None,
        },
        parts@.2 == parts.port,
        parts@.3 == parts.path@,
        target@.url == target.url@,
        target@.domain == target.domain@,
        target@.addr == target.addr,
{
}

} // verus!
