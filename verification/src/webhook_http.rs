//! Delivery of webhooks over HTTP: who gets an event, what the request looks
//! like, and what the reply means.

use vstd::prelude::*;
use crate::text;
use crate::webhook;
use crate::webhook::{EventKind, HeaderEntry, WebhookConfig};

verus! {

/// The targets that want an event, in the order in which they are configured.
pub open spec fn wanting(
    targets: Seq<webhook::WebhookConfigView>,
    kind: EventKind,
) -> Seq<webhook::WebhookConfigView>
    decreases targets.len(),
{
    if targets.len() == 0 {
        Seq::empty()
    } else {
        let before = wanting(targets.drop_last(), kind);
        if targets.last().wants(kind) {
            before.push(targets.last())
        } else {
            before
        }
    }
}

/// Targets by their views.
pub open spec fn target_views(targets: Seq<WebhookConfig>) -> Seq<webhook::WebhookConfigView> {
    Seq::new(targets.len(), |i: int| targets[i]@)
}

fn asks_for(target: &WebhookConfig, kind: EventKind) -> (r: bool)
    ensures
        r == target@.wants(kind),
{
    if !target.enabled {
        return false;
    }
    let mut i: usize = 0;
    while i < target.events.len()
        invariant
            target.enabled,
            i <= target.events.len(),
            forall|j: int| 0 <= j < i ==> target.events@[j] != kind,
        decreases target.events.len() - i,
    {
        if target.events[i] == kind {
            assert(target.events@[i as int] == kind);
            return true;
        }
        i += 1;
    }
    false
}

pub fn subscribers(targets: &Vec<WebhookConfig>, kind: EventKind) -> (subs: Vec<WebhookConfig>)
    ensures
        target_views(subs@) == wanting(target_views(targets@), kind),
{
    let mut subs: Vec<WebhookConfig> = Vec::new();
    let mut i: usize = 0;
    let ghost all = target_views(targets@);
    assert(all.take(0) =~= Seq::<webhook::WebhookConfigView>::empty());
    assert(target_views(subs@) =~= wanting(all.take(0), kind));
    while i < targets.len()
        invariant
            i <= targets.len(),
            all == target_views(targets@),
            target_views(subs@) == wanting(all.take(i as int), kind),
        decreases targets.len() - i,
    {
        let target = &targets[i];
        let ghost before = subs@;
        proof {
            assert(all.take(i + 1).drop_last() =~= all.take(i as int));
            assert(all.take(i + 1).last() == target@);
        }
        if asks_for(target, kind) {
            subs.push(target.clone());
            assert(target_views(subs@) =~= target_views(before).push(target@));
        }
        i += 1;
    }
    assert(all.take(all.len() as int) =~= all);
    subs
}

/// A target that is off, or that lists no events, gets nothing; one that gets
/// an event asks for it.
pub proof fn only_wanting_targets_get_events(
    targets: Seq<webhook::WebhookConfigView>,
    kind: EventKind,
    k: int,
)
    requires
        0 <= k < wanting(targets, kind).len(),
    ensures
        targets.contains(wanting(targets, kind)[k]),
        wanting(targets, kind)[k].wants(kind),
    decreases targets.len(),
{
    let before = wanting(targets.drop_last(), kind);
    if k < before.len() {
        only_wanting_targets_get_events(targets.drop_last(), kind, k);
        let i = targets.drop_last().index_of(before[k]);
        assert(targets[i] == before[k]);
    } else {
        assert(targets[targets.len() - 1] == targets.last());
    }
}

/// A status that counts as delivered.
pub fn delivered(status: u16) -> (r: bool)
    ensures
        r == (200 <= status < 300),
{
    200 <= status && status < 300
}

/// The request methods that a webhook can use.
#[derive(Debug, Clone, Copy, PartialEq, Eq, Structural)]
pub enum HttpMethod {
    Post,
    Put,
}

/// The configured method in any case of letters; other methods are refused
/// with a message.
pub fn request_method(method: &str) -> (r: Result<HttpMethod, String>)
    ensures
        text::uppered(method@) == "POST"@ ==> r == Ok::<HttpMethod, String>(HttpMethod::Post),
        text::uppered(method@) == "PUT"@ ==> r == Ok::<HttpMethod, String>(HttpMethod::Put),
        text::uppered(method@) != "POST"@ && text::uppered(method@) != "PUT"@ ==> r is Err && r->Err_0@
            == "unsupported method "@ + text::uppered(method@),
{
    let upper = text::to_upper(method);
    proof {
        reveal_strlit("POST");
        reveal_strlit("PUT");
        assert("POST"@.len() != "PUT"@.len());
    }
    if text::same(upper.as_str(), "PUT") {
        Ok(HttpMethod::Put)
    } else if text::same(upper.as_str(), "POST") {
        Ok(HttpMethod::Post)
    } else {
        Err(text::join("unsupported method ", upper.as_str()))
    }
}

/// A header with this name is in the list, in whatever case of letters.
pub open spec fn names_header(headers: Seq<(Seq<char>, Seq<char>)>, name: Seq<char>) -> bool {
    exists|i: int|
        0 <= i < headers.len() && text::lowered((#[trigger] headers[i]).0) == text::lowered(name)
}

/// The configured headers, and a JSON content type where none is configured.
pub open spec fn headers_to_send(
    headers: Seq<(Seq<char>, Seq<char>)>,
) -> Seq<(Seq<char>, Seq<char>)> {
    if names_header(headers, "content-type"@) {
        headers
    } else {
        headers.push(("Content-Type"@, "application/json"@))
    }
}

fn has_content_type(headers: &Vec<HeaderEntry>) -> (r: bool)
    ensures
        r == names_header(webhook::header_views(headers@), "content-type"@),
{
    let ghost views = webhook::header_views(headers@);
    let mut i: usize = 0;
    while i < headers.len()
        invariant
            i <= headers.len(),
            views == webhook::header_views(headers@),
            forall|j: int|
                0 <= j < i ==> text::lowered((#[trigger] views[j]).0) != text::lowered(
                    "content-type"@,
                ),
        decreases headers.len() - i,
    {
        if text::same_ignoring_case(headers[i].name.as_str(), "content-type") {
            assert(text::lowered(views[i as int].0) == text::lowered("content-type"@));
            return true;
        }
        i += 1;
    }
    false
}

/// The headers of a request, in the order in which they are sent.
pub fn request_headers(target: &WebhookConfig) -> (headers: Vec<HeaderEntry>)
    ensures
        webhook::header_views(headers@) == headers_to_send(target@.headers),
{
    let mut headers: Vec<HeaderEntry> = target.headers.clone();
    proof {
        assert forall|i: int| 0 <= i < target.headers@.len() implies #[trigger] headers@[i]
            == target.headers@[i] by {
            assert(cloned(target.headers@[i], headers@[i]));
        }
        assert(webhook::header_views(headers@) =~= target@.headers);
    }
    let ghost before = headers@;
    if !has_content_type(&target.headers) {
        headers.push(
            HeaderEntry {
                name: "Content-Type".to_owned(),
                value: "application/json".to_owned(),
            },
        );
        assert(webhook::header_views(headers@) =~= webhook::header_views(before).push(
            ("Content-Type"@, "application/json"@),
        ));
    }
    headers
}

/// The same headers followed by the length of the body, for clients that do
/// not add it themselves.
pub fn request_headers_with_length(target: &WebhookConfig, body: &str) -> (headers: Vec<
    HeaderEntry,
>)
    ensures
        webhook::header_views(headers@) == headers_to_send(target@.headers).push(
            ("Content-Length"@, text::decimal(body.len() as nat)),
        ),
{
    let mut headers = request_headers(target);
    let ghost before = headers@;
    let length = text::decimal_u64(body.len() as u64);
    headers.push(HeaderEntry { name: "Content-Length".to_owned(), value: length });
    assert(webhook::header_views(headers@) =~= webhook::header_views(before).push(
        ("Content-Length"@, text::decimal(body.len() as nat)),
    ));
    headers
}

/// The parts of a webhook URL.
#[derive(Debug, PartialEq)]
pub struct Url {
    pub https: bool,
    pub host: String,
    pub port: u16,
    pub path: String,
}

pub struct UrlView {
    pub https: bool,
    pub host: Seq<char>,
    pub port: nat,
    pub path: Seq<char>,
}

impl View for Url {
    type V = UrlView;

    open spec fn view(&self) -> UrlView {
        UrlView {
            https: self.https,
            host: self.host@,
            port: self.port as nat,
            path: self.path@,
        }
    }
}

/// The index behind the last occurrence, or zero where there is none.
pub open spec fn behind_last(s: Seq<char>, c: char) -> int
    decreases s.len(),
{
    if s.len() == 0 || s.last() == c {
        s.len() as int
    } else {
        behind_last(s.drop_last(), c)
    }
}

/// `host` or `host:port`; the last colon parts them.
pub open spec fn split_authority(authority: Seq<char>, standard: nat) -> Option<(Seq<char>, nat)> {
    let b = behind_last(authority, ':');
    if b == 0 {
        Some((authority, standard))
    } else {
        match text::parsed(authority.skip(b), 65_535) {
            Some(port) => Some((authority.take(b - 1), port)),
            None => None,
        }
    }
}

/// What follows the scheme: authority and path, parted by the first slash.
pub open spec fn split_rest(https: bool, rest: Seq<char>) -> Option<UrlView> {
    let slash = text::first_index(rest, '/');
    let path = if slash == rest.len() {
        "/"@
    } else {
        rest.skip(slash)
    };
    match split_authority(rest.take(slash), if https { 443 } else { 80 }) {
        Some((host, port)) => if host.len() == 0 {
            None
        } else {
            Some(UrlView { https, host, port, path })
        },
        None => None,
    }
}

/// `http(s)://host[:port][/path]` taken apart.
pub open spec fn url_parts(url: Seq<char>) -> Option<UrlView> {
    if "https://"@.is_prefix_of(url) {
        split_rest(true, url.skip(8))
    } else if "http://"@.is_prefix_of(url) {
        split_rest(false, url.skip(7))
    } else {
        None
    }
}

fn find_behind_last(s: &[char], c: char) -> (i: usize)
    ensures
        i == behind_last(s@, c),
        i <= s@.len(),
{
    let mut i: usize = s.len();
    assert(s@.take(i as int) =~= s@);
    while i > 0 && s[i - 1] != c
        invariant
            i <= s@.len(),
            behind_last(s@, c) == behind_last(s@.take(i as int), c),
        decreases i,
    {
        assert(s@.take(i as int).drop_last() =~= s@.take(i - 1));
        assert(s@.take(i as int).last() == s@[i - 1]);
        i -= 1;
    }
    if i > 0 {
        assert(s@.take(i as int).last() == s@[i - 1]);
    }
    i
}

fn starts_with(s: &[char], prefix: &str) -> (r: bool)
    ensures
        r == prefix@.is_prefix_of(s@),
{
    let p: Vec<char> = text::chars_of(prefix);
    if s.len() < p.len() {
        return false;
    }
    let head = text::substring(s, 0, p.len());
    text::same(head.as_str(), prefix)
}

/// Nothing where the scheme is neither `http` nor `https`, the host is empty,
/// or the port is not a number of sixteen bits.
pub fn parse_url(url: &str) -> (r: Option<Url>)
    ensures
        r is Some == url_parts(url@) is Some,
        r is Some ==> r->0@ == url_parts(url@)->0,
{
    let v: Vec<char> = text::chars_of(url);
    proof {
        reveal_strlit("https://");
        reveal_strlit("http://");
    }
    let (https, from): (bool, usize) = if starts_with(v.as_slice(), "https://") {
        (true, 8)
    } else if starts_with(v.as_slice(), "http://") {
        (false, 7)
    } else {
        return None;
    };
    let rest_text = text::substring(v.as_slice(), from, v.len());
    let ghost rest = url@.skip(from as int);
    assert(rest_text@ =~= rest);
    let w: Vec<char> = text::chars_of(rest_text.as_str());
    let slash: usize = text::find_first(w.as_slice(), '/');
    let path = if slash == w.len() {
        "/".to_owned()
    } else {
        text::substring(w.as_slice(), slash, w.len())
    };
    assert(slash < rest.len() ==> path@ =~= rest.skip(slash as int));
    let authority_text = text::substring(w.as_slice(), 0, slash);
    let ghost authority = rest.take(slash as int);
    assert(authority_text@ =~= authority);
    let a: Vec<char> = text::chars_of(authority_text.as_str());
    let b: usize = find_behind_last(a.as_slice(), ':');
    let (host, port): (String, u16) = if b == 0 {
        (authority_text, if https { 443 } else { 80 })
    } else {
        let digits = text::substring(a.as_slice(), b, a.len());
        assert(digits@ =~= authority.skip(b as int));
        match text::parse(digits.as_str(), 65_535) {
            Some(n) => {
                let h = text::substring(a.as_slice(), 0, b - 1);
                assert(h@ =~= authority.take(b - 1));
                (h, n as u16)
            },
            None => return None,
        }
    };
    if host.unicode_len() == 0 {
        return None;
    }
    Some(Url { https, host, port, path })
}

/// Four numbers of eight bits each, parted by dots.
pub open spec fn ipv4_octets(s: Seq<char>) -> Option<Seq<u8>> {
    let parts = text::split_at_char(s, '.');
    if parts.len() == 4 && forall|i: int|
        0 <= i < 4 ==> text::parsed(#[trigger] parts[i], 255) is Some {
        Some(Seq::new(4, |i: int| text::parsed(parts[i], 255)->0 as u8))
    } else {
        None
    }
}

/// An address in dotted notation.
pub fn parse_ipv4(s: &str) -> (r: Option<[u8; 4]>)
    ensures
        r is Some == ipv4_octets(s@) is Some,
        r is Some ==> r->0@ == ipv4_octets(s@)->0,
{
    let parts: Vec<String> = text::split(s, '.');
    let ghost views = text::split_at_char(s@, '.');
    assert(parts@.len() == views.len());
    if parts.len() != 4 {
        return None;
    }
    let mut octets: [u8; 4] = [0u8; 4];
    let mut i: usize = 0;
    while i < 4
        invariant
            i <= 4,
            parts@.len() == 4,
            views == text::texts(parts@),
            views == text::split_at_char(s@, '.'),
            forall|j: int|
                0 <= j < i ==> text::parsed(#[trigger] views[j], 255) is Some && octets@[j]
                    == text::parsed(views[j], 255)->0,
        decreases 4 - i,
    {
        assert(views[i as int] == parts@[i as int]@);
        match text::parse(parts[i].as_str(), 255) {
            Some(n) => {
                octets[i] = n as u8;
            },
            None => {
                return None;
            },
        }
        i += 1;
    }
    assert(octets@ =~= ipv4_octets(s@)->0);
    Some(octets)
}

/// One header as a line of a request.
pub open spec fn header_line(name: Seq<char>, value: Seq<char>) -> Seq<char> {
    name + ": "@ + value + "\r\n"@
}

/// Headers as lines, one behind the other.
pub open spec fn header_lines(headers: Seq<(Seq<char>, Seq<char>)>) -> Seq<char>
    decreases headers.len(),
{
    if headers.len() == 0 {
        Seq::empty()
    } else {
        header_lines(headers.drop_last()) + header_line(headers.last().0, headers.last().1)
    }
}

/// The length of a body in a request: at most ten digits are written.
pub open spec fn length_text(n: nat) -> Seq<char> {
    if text::decimal(n).len() <= 10 {
        text::decimal(n)
    } else {
        Seq::empty()
    }
}

/// A whole HTTP/1.1 request: request line, host, headers, length, and body.
pub open spec fn request_text(
    target: webhook::WebhookConfigView,
    url: UrlView,
    body: Seq<char>,
    body_len: nat,
) -> Seq<char> {
    let method = if text::lowered(target.method) == text::lowered("put"@) {
        "PUT"@
    } else {
        "POST"@
    };
    method + " "@ + url.path + " HTTP/1.1\r\nHost: "@ + url.host + "\r\n"@ + header_lines(
        headers_to_send(target.headers),
    ) + "Content-Length: "@ + length_text(body_len) + "\r\nConnection: close\r\n\r\n"@ + body
}

/// Builds the request that a target gets. The method is PUT where PUT is
/// configured, in any case of letters, and POST otherwise.
pub fn build_request(target: &WebhookConfig, url: &Url, body: &str) -> (req: String)
    ensures
        req@ == request_text(target@, url@, body@, body.len() as nat),
{
    let mut req = if text::same_ignoring_case(target.method.as_str(), "put") {
        "PUT".to_owned()
    } else {
        "POST".to_owned()
    };
    req.append(" ");
    req.append(url.path.as_str());
    req.append(" HTTP/1.1\r\nHost: ");
    req.append(url.host.as_str());
    req.append("\r\n");
    let ghost head = req@;
    let headers = request_headers(target);
    let ghost views = webhook::header_views(headers@);
    let mut i: usize = 0;
    assert(views.take(0) =~= Seq::<(Seq<char>, Seq<char>)>::empty());
    assert(head + header_lines(views.take(0)) =~= head);
    while i < headers.len()
        invariant
            i <= headers.len(),
            views == webhook::header_views(headers@),
            req@ == head + header_lines(views.take(i as int)),
        decreases headers.len() - i,
    {
        let ghost before = req@;
        let h = &headers[i];
        req.append(h.name.as_str());
        req.append(": ");
        req.append(h.value.as_str());
        req.append("\r\n");
        proof {
            assert(views.take(i + 1).drop_last() =~= views.take(i as int));
            assert(views.take(i + 1).last() == h@);
            assert(req@ =~= head + (header_lines(views.take(i as int)) + header_line(
                h.name@,
                h.value@,
            )));
        }
        i += 1;
    }
    assert(views.take(views.len() as int) =~= views);
    req.append("Content-Length: ");
    let length = text::decimal_u64(body.len() as u64);
    if length.unicode_len() <= 10 {
        req.append(length.as_str());
    }
    assert(length_text(body.len() as nat).len() == 0 ==> head + header_lines(views)
        + "Content-Length: "@ =~= head + header_lines(views) + "Content-Length: "@ + length_text(
        body.len() as nat,
    ));
    req.append("\r\nConnection: close\r\n\r\n");
    req.append(body);
    req
}

/// Why a reply carries no status.
#[derive(Debug, Clone, Copy, PartialEq, Eq, Structural)]
pub enum StatusError {
    NonUtf8,
    NoStatus,
}

impl StatusError {
    pub fn as_str(&self) -> (s: &'static str)
        ensures
            s@ == (match *self {
                StatusError::NonUtf8 => "non-utf8"@,
                StatusError::NoStatus => "no status"@,
            }),
    {
        match self {
            StatusError::NonUtf8 => "non-utf8",
            StatusError::NoStatus => "no status",
        }
    }
}

/// The status code in the first bytes of a reply: the second word.
pub open spec fn status_of(reply: Seq<u8>) -> Result<nat, StatusError> {
    if !vstd::utf8::valid_utf8(reply) {
        Err(StatusError::NonUtf8)
    } else {
        let words = text::words_of(vstd::utf8::decode_utf8(reply));
        if words.len() < 2 {
            Err(StatusError::NoStatus)
        } else {
            match text::parsed(words[1], 65_535) {
                Some(n) => Ok(n),
                None => Err(StatusError::NoStatus),
            }
        }
    }
}

pub fn parse_status(reply: &[u8]) -> (r: Result<u16, StatusError>)
    ensures
        match status_of(reply@) {
            Ok(n) => r is Ok && r->Ok_0 == n,
            Err(e) => r == Err::<u16, StatusError>(e),
        },
{
    let line = match text::utf8_text(reply) {
        Some(line) => line,
        None => return Err(StatusError::NonUtf8),
    };
    let words: Vec<String> = text::words(line);
    let ghost views = text::words_of(line@);
    assert(words@.len() == views.len());
    if words.len() < 2 {
        return Err(StatusError::NoStatus);
    }
    assert(views[1] == words@[1]@);
    match text::parse(words[1].as_str(), 65_535) {
        Some(n) => Ok(n as u16),
        None => Err(StatusError::NoStatus),
    }
}

/// An event goes to every target that is on and lists it, in the order in which
/// they are configured, and to no other target.
pub proof fn every_asking_target_gets_the_event(
    targets: Seq<webhook::WebhookConfigView>,
    kind: EventKind,
)
    ensures
        wanting(targets, kind) == targets.filter(
            |t: webhook::WebhookConfigView| t.enabled && t.events.contains(kind),
        ),
        forall|i: int|
            0 <= i < targets.len() && (#[trigger] targets[i]).enabled && targets[i].events.contains(
                kind,
            ) ==> wanting(targets, kind).contains(targets[i]),
        forall|k: int|
            0 <= k < wanting(targets, kind).len() ==> (#[trigger] wanting(targets, kind)[k]).enabled
                && wanting(targets, kind)[k].events.contains(kind) && targets.contains(
                wanting(targets, kind)[k],
            ),
    decreases targets.len(),
{
    reveal(Seq::filter);
    let got = wanting(targets, kind);
    if targets.len() > 0 {
        every_asking_target_gets_the_event(targets.drop_last(), kind);
        let before = wanting(targets.drop_last(), kind);
        assert forall|i: int|
            0 <= i < targets.len() && (#[trigger] targets[i]).enabled && targets[i].events.contains(
                kind,
            ) implies got.contains(targets[i]) by {
            if i < targets.len() - 1 {
                assert(targets.drop_last()[i] == targets[i]);
                let k = before.index_of(targets[i]);
                assert(got[k] == targets[i]);
            } else {
                assert(got[before.len() as int] == targets[i]);
            }
        }
        assert forall|k: int| 0 <= k < got.len() implies (#[trigger] got[k]).enabled
            && got[k].events.contains(kind) && targets.contains(got[k]) by {
            if k < before.len() {
                assert(got[k] == before[k]);
                let i = targets.drop_last().index_of(before[k]);
                assert(targets[i] == before[k]);
            } else {
                assert(got[k] == targets[targets.len() - 1]);
            }
        }
    }
}

/// A target that is added is asked last, and alone decides whether it gets the
/// event: the others get what they got.
pub proof fn targets_do_not_displace_each_other(
    targets: Seq<webhook::WebhookConfigView>,
    more: webhook::WebhookConfigView,
    kind: EventKind,
)
    ensures
        more.enabled && more.events.contains(kind) ==> wanting(targets.push(more), kind) == wanting(
            targets,
            kind,
        ).push(more),
        !more.enabled || !more.events.contains(kind) ==> wanting(targets.push(more), kind)
            == wanting(targets, kind),
{
    assert(targets.push(more).drop_last() =~= targets);
}

/// The configured headers are sent as they are, in front. A content type is
/// sent exactly once where none is configured, and none is added where one is.
pub proof fn configured_headers_are_sent(headers: Seq<(Seq<char>, Seq<char>)>)
    ensures
        headers_to_send(headers).take(headers.len() as int) == headers,
        (exists|i: int|
            0 <= i < headers.len() && text::lowered((#[trigger] headers[i]).0) == text::lowered(
                "content-type"@,
            )) ==> headers_to_send(headers) == headers,
        !(exists|i: int|
            0 <= i < headers.len() && text::lowered((#[trigger] headers[i]).0) == text::lowered(
                "content-type"@,
            )) ==> headers_to_send(headers).len() == headers.len() + 1 && headers_to_send(
            headers,
        ).last() == ("Content-Type"@, "application/json"@),
{
    assert(headers_to_send(headers).take(headers.len() as int) =~= headers);
}

proof fn no_colon_no_port(s: Seq<char>)
    requires
        forall|i: int| 0 <= i < s.len() ==> #[trigger] s[i] != ':',
    ensures
        behind_last(s, ':') == 0,
    decreases s.len(),
{
    if s.len() > 0 {
        assert(s.last() == s[s.len() - 1]);
        assert forall|i: int| 0 <= i < s.drop_last().len() implies #[trigger] s.drop_last()[i]
            != ':' by {
            assert(s.drop_last()[i] == s[i]);
        }
        no_colon_no_port(s.drop_last());
    }
}

proof fn last_colon_is_found(host: Seq<char>, port: Seq<char>)
    requires
        forall|i: int| 0 <= i < port.len() ==> #[trigger] port[i] != ':',
    ensures
        behind_last(host + seq![':'] + port, ':') == host.len() + 1,
    decreases port.len(),
{
    let s = host + seq![':'] + port;
    if port.len() == 0 {
        assert(s.last() == ':');
    } else {
        assert(s.last() == port[port.len() - 1]);
        assert(s.drop_last() =~= host + seq![':'] + port.drop_last());
        assert forall|i: int| 0 <= i < port.drop_last().len() implies #[trigger] port.drop_last()[i]
            != ':' by {
            assert(port.drop_last()[i] == port[i]);
        }
        last_colon_is_found(host, port.drop_last());
    }
}

proof fn rest_is_taken_apart(authority: Seq<char>, path: Seq<char>)
    requires
        forall|i: int| 0 <= i < authority.len() ==> #[trigger] authority[i] != '/',
        path.len() == 0 || path[0] == '/',
    ensures
        ({
            let rest = authority + path;
            &&& text::first_index(rest, '/') == authority.len()
            &&& rest.take(authority.len() as int) == authority
            &&& rest.skip(authority.len() as int) == path
        }),
{
    let rest = authority + path;
    text::first_index_is_first(rest, '/');
    let f = text::first_index(rest, '/');
    if f < authority.len() {
        assert(rest[f] == authority[f]);
    }
    if path.len() > 0 {
        assert(rest[authority.len() as int] == '/');
    }
    assert(rest.take(authority.len() as int) =~= authority);
    assert(rest.skip(authority.len() as int) =~= path);
}

/// A URL put together from scheme, host and path is taken apart into them, with
/// port 80 or 443 by its scheme; one that names a port has that port. Without a
/// path it means `/`.
pub proof fn urls_have_their_parts(https: bool, host: Seq<char>, port: u16, path: Seq<char>)
    requires
        host.len() > 0,
        forall|i: int| 0 <= i < host.len() ==> #[trigger] host[i] != '/' && host[i] != ':',
        path.len() == 0 || path[0] == '/',
    ensures
        ({
            let scheme = if https { "https://"@ } else { "http://"@ };
            let meant = if path.len() == 0 { "/"@ } else { path };
            let named = host + seq![':'] + text::decimal(port as nat);
            &&& url_parts(scheme + host + path) == Some(
                (UrlView { https, host, port: if https { 443 } else { 80 }, path: meant }),
            )
            &&& url_parts(scheme + named + path) == Some(
                (UrlView { https, host, port: port as nat, path: meant }),
            )
        }),
{
    let scheme = if https { "https://"@ } else { "http://"@ };
    let digits = text::decimal(port as nat);
    let named = host + seq![':'] + digits;
    text::written_numbers_are_read_back(port as nat, 65_535);
    assert forall|i: int| 0 <= i < digits.len() implies #[trigger] digits[i] != ':' && digits[i]
        != '/' by {
        assert('0' <= text::decimal(port as nat)[i] <= '9');
    }
    assert forall|i: int| 0 <= i < named.len() implies #[trigger] named[i] != '/' by {
        if i < host.len() {
            assert(named[i] == host[i]);
        } else if i > host.len() {
            assert(named[i] == digits[i - host.len() - 1]);
        }
    }
    no_colon_no_port(host);
    last_colon_is_found(host, digits);
    assert(named.take(host.len() as int) =~= host);
    assert(named.skip(host.len() as int + 1) =~= digits);
    rest_is_taken_apart(host, path);
    rest_is_taken_apart(named, path);
    schemes_are_told_apart(https, host + path);
    schemes_are_told_apart(https, named + path);
    assert(scheme + host + path =~= scheme + (host + path));
    assert(scheme + named + path =~= scheme + (named + path));
}

proof fn schemes_are_told_apart(https: bool, rest: Seq<char>)
    ensures
        url_parts((if https { "https://"@ } else { "http://"@ }) + rest) == split_rest(https, rest),
{
    reveal_strlit("https://");
    reveal_strlit("http://");
    let scheme = if https { "https://"@ } else { "http://"@ };
    let n: int = if https { 8 } else { 7 };
    let url = scheme + rest;
    assert(url.skip(n) =~= rest);
    assert(url.subrange(0, n) =~= scheme);
    if !https {
        assert(url[4] == ':');
        assert("https://"@[4] == 's');
        if "https://"@.is_prefix_of(url) {
            assert(url.subrange(0, 8)[4] == url[4]);
        }
    }
}

/// A URL that is taken apart has a scheme, a host and an absolute path.
pub proof fn urls_without_parts_are_refused(url: Seq<char>)
    ensures
        url_parts(url) is Some ==> "https://"@.is_prefix_of(url) || "http://"@.is_prefix_of(url),
        url_parts(url) is Some ==> url_parts(url)->0.https == "https://"@.is_prefix_of(url),
        url_parts(url) is Some ==> url_parts(url)->0.host.len() > 0,
        url_parts(url) is Some ==> url_parts(url)->0.port <= 65_535,
        url_parts(url) is Some ==> url_parts(url)->0.path.len() > 0 && url_parts(url)->0.path[0]
            == '/',
{
    reveal_strlit("/");
    reveal_strlit("https://");
    reveal_strlit("http://");
    if url_parts(url) is Some {
        let https = "https://"@.is_prefix_of(url);
        let rest = url.skip(if https { 8 } else { 7 });
        text::first_index_is_first(rest, '/');
        let slash = text::first_index(rest, '/');
        let authority = rest.take(slash);
        let b = behind_last(authority, ':');
        if b != 0 {
            text::only_numbers_are_read(authority.skip(b), 65_535, 0);
        }
        if slash < rest.len() {
            assert(rest.skip(slash)[0] == rest[slash]);
        }
    }
}

/// A request starts with the method, the path and the host of the URL, has one
/// line for each header, in their order, and ends with the length of the body,
/// a blank line and the body itself.
pub proof fn requests_say_what_they_carry(
    target: webhook::WebhookConfigView,
    url: UrlView,
    body: Seq<char>,
    body_len: nat,
)
    requires
        body_len < 10_000_000_000,
    ensures
        ({
            let method = if text::lowered(target.method) == "put"@ { "PUT "@ } else { "POST "@ };
            request_text(target, url, body, body_len) == method + url.path
                + " HTTP/1.1\r\nHost: "@ + url.host + "\r\n"@ + header_lines(
                headers_to_send(target.headers),
            ) + ("Content-Length: "@ + text::decimal(body_len)
                + "\r\nConnection: close\r\n\r\n"@ + body)
        }),
        header_lines(Seq::empty()) == Seq::<char>::empty(),
        forall|headers: Seq<(Seq<char>, Seq<char>)>, name: Seq<char>, value: Seq<char>|
            #[trigger] header_lines(headers.push((name, value))) == header_lines(headers) + name
                + ": "@ + value + "\r\n"@,
{
    reveal_strlit("put");
    reveal_strlit("PUT");
    reveal_strlit("PUT ");
    reveal_strlit("POST");
    reveal_strlit("POST ");
    reveal_strlit(" ");
    assert(text::lowered("put"@) =~= "put"@);
    assert("PUT"@ + " "@ =~= "PUT "@);
    assert("POST"@ + " "@ =~= "POST "@);
    assert(text::decimal(body_len).len() <= 10) by {
        reveal_with_fuel(text::decimal, 11);
    }
    let method = if text::lowered(target.method) == "put"@ { "PUT "@ } else { "POST "@ };
    assert(request_text(target, url, body, body_len) =~= method + url.path
        + " HTTP/1.1\r\nHost: "@ + url.host + "\r\n"@ + header_lines(
        headers_to_send(target.headers),
    ) + ("Content-Length: "@ + text::decimal(body_len) + "\r\nConnection: close\r\n\r\n"@ + body));
    assert forall|headers: Seq<(Seq<char>, Seq<char>)>, name: Seq<char>, value: Seq<char>|
        #[trigger] header_lines(headers.push((name, value))) == header_lines(headers) + name
            + ": "@ + value + "\r\n"@ by {
        assert(headers.push((name, value)).drop_last() =~= headers);
        assert(header_lines(headers) + (name + ": "@ + value + "\r\n"@) =~= header_lines(headers)
            + name + ": "@ + value + "\r\n"@);
    }
}

/// A status line, such as one with a version, a status and a reason, is read
/// for its status.
pub proof fn status_lines_are_read(version: Seq<char>, status: u16, reason: Seq<char>)
    requires
        version.len() > 0,
        forall|i: int| 0 <= i < version.len() ==> !text::is_white(#[trigger] version[i]),
    ensures
        status_of(
            vstd::utf8::encode_utf8(
                version + seq![' '] + (text::decimal(status as nat) + seq![' '] + reason),
            ),
        ) == Ok::<nat, StatusError>(status as nat),
        status_of(vstd::utf8::encode_utf8(version)) == Err::<nat, StatusError>(
            StatusError::NoStatus,
        ),
{
    let digits = text::decimal(status as nat);
    let line = version + seq![' '] + (digits + seq![' '] + reason);
    vstd::utf8::encode_utf8_valid_utf8(line);
    vstd::utf8::encode_utf8_decode_utf8(line);
    vstd::utf8::encode_utf8_valid_utf8(version);
    vstd::utf8::encode_utf8_decode_utf8(version);
    text::written_numbers_are_read_back(status as nat, 65_535);
    assert forall|i: int| 0 <= i < digits.len() implies !text::is_white(#[trigger] digits[i]) by {
        assert('0' <= text::decimal(status as nat)[i] <= '9');
    }
    text::words_stand_between_blanks(' ', version, digits + seq![' '] + reason);
    text::words_stand_between_blanks(' ', digits, reason);
    let words = text::words_of(line);
    assert(words == seq![version] + (seq![digits] + text::words_of(reason)));
    assert(words[1] == digits);
}

/// An address that is written with dots is read as its four numbers.
pub proof fn addresses_are_read(a: u8, b: u8, c: u8, d: u8)
    ensures
        ipv4_octets(
            text::decimal(a as nat) + seq!['.'] + (text::decimal(b as nat) + seq!['.'] + (
            text::decimal(c as nat) + seq!['.'] + text::decimal(d as nat))),
        ) == Some(seq![a, b, c, d]),
{
    let last = text::decimal(d as nat);
    let third = text::decimal(c as nat) + seq!['.'] + last;
    let second = text::decimal(b as nat) + seq!['.'] + third;
    let whole = text::decimal(a as nat) + seq!['.'] + second;
    numbers_have_no_dots(a);
    numbers_have_no_dots(b);
    numbers_have_no_dots(c);
    numbers_have_no_dots(d);
    text::parts_stand_between_separators(text::decimal(a as nat), second, '.');
    text::parts_stand_between_separators(text::decimal(b as nat), third, '.');
    text::parts_stand_between_separators(text::decimal(c as nat), last, '.');
    text::parts_stand_between_separators(last, last, '.');
    let parts = text::split_at_char(whole, '.');
    assert(parts =~= seq![
        text::decimal(a as nat),
        text::decimal(b as nat),
        text::decimal(c as nat),
        text::decimal(d as nat),
    ]);
    assert(ipv4_octets(whole)->0 =~= seq![a, b, c, d]);
}

proof fn numbers_have_no_dots(n: u8)
    ensures
        text::parsed(text::decimal(n as nat), 255) == Some(n as nat),
        forall|i: int|
            0 <= i < text::decimal(n as nat).len() ==> #[trigger] text::decimal(n as nat)[i]
                != '.',
{
    text::written_numbers_are_read_back(n as nat, 255);
    assert forall|i: int| 0 <= i < text::decimal(n as nat).len() implies #[trigger] text::decimal(
        n as nat,
    )[i] != '.' by {
        assert('0' <= text::decimal(n as nat)[i] <= '9');
    }
}

/// A length is written where it has at most ten digits, and left out otherwise.
pub proof fn long_lengths_are_left_out(n: nat)
    ensures
        n < 10_000_000_000 ==> text::parsed(length_text(n), 10_000_000_000) == Some(n),
        n >= 10_000_000_000 ==> length_text(n).len() == 0,
{
    text::written_numbers_are_read_back(n, 10_000_000_000);
    reveal_with_fuel(text::decimal, 11);
}

} // verus!
