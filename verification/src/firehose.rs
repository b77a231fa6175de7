//! Firehose configuration and feeding-strategy decisions.
//!
//! The instance host is normalised (whitespace trimmed, any scheme prefix
//! and trailing slashes removed) and the one forbidden instance is refused.

use vstd::prelude::*;
use tokio::sync::mpsc;

verus! {

/// Capacity in bytes of the lossy buffer between the socket reader and the
/// FSM consumer; one slot holds one byte.
pub const BUFFER_BYTES: usize = 1024;

/// The instance whose over-filtered firehose is refused.
pub const FORBIDDEN_INSTANCE: &'static str = "mastodon.social";

/// Health of the firehose, consumed by the kernel as an explicit strategy
/// toggle between the two feeding modes.
#[derive(Clone, Copy, Debug, PartialEq, Eq, Structural)]
pub enum Health {
    /// Socket is up; FSMs feed on the raw firehose bytes.
    FirehoseFeeding,
    /// Socket is down (other than rate limiting); FSMs feed on the bus.
    BusFeeding,
    /// The server answered HTTP 429. There is no retry: FSMs feed on the bus
    /// for the rest of their life.
    Starved,
}

/// Why an instance host was refused.
#[derive(Debug)]
pub enum ConfigError {
    /// The host is the forbidden instance (the normalised host is carried).
    ForbiddenInstance(String),
    /// Nothing is left of the host once normalised.
    EmptyInstance,
}

/// A validated firehose configuration.
#[derive(Debug, Clone)]
pub struct FirehoseConfig {
    pub instance: String,
}

/// `char::is_whitespace`: the Unicode `White_Space` property.
pub open spec fn is_white_space(c: char) -> bool {
    let u = c as u32;
    ||| 0x09 <= u <= 0x0d
    ||| u == 0x20
    ||| u == 0x85
    ||| u == 0xa0
    ||| u == 0x1680
    ||| 0x2000 <= u <= 0x200a
    ||| u == 0x2028
    ||| u == 0x2029
    ||| u == 0x202f
    ||| u == 0x205f
    ||| u == 0x3000
}

/// `s` with its leading white space removed.
pub open spec fn trim_start_ws(s: Seq<char>) -> Seq<char>
    decreases s.len(),
{
    if s.len() > 0 && is_white_space(s[0]) {
        trim_start_ws(s.drop_first())
    } else {
        s
    }
}

/// `s` with its trailing white space removed.
pub open spec fn trim_end_ws(s: Seq<char>) -> Seq<char>
    decreases s.len(),
{
    if s.len() > 0 && is_white_space(s.last()) {
        trim_end_ws(s.drop_last())
    } else {
        s
    }
}

/// `s` with every leading repetition of the non-empty pattern `p` removed.
pub open spec fn strip_prefixes(s: Seq<char>, p: Seq<char>) -> Seq<char>
    decreases s.len(),
{
    if 0 < p.len() <= s.len() && s.take(p.len() as int) == p {
        strip_prefixes(s.skip(p.len() as int), p)
    } else {
        s
    }
}

/// `s` with every trailing `c` removed.
pub open spec fn strip_trailing(s: Seq<char>, c: char) -> Seq<char>
    decreases s.len(),
{
    if s.len() > 0 && s.last() == c {
        strip_trailing(s.drop_last(), c)
    } else {
        s
    }
}

pub open spec fn https_scheme() -> Seq<char> {
    seq!['h', 't', 't', 'p', 's', ':', '/', '/']
}

pub open spec fn http_scheme() -> Seq<char> {
    seq!['h', 't', 't', 'p', ':', '/', '/']
}

pub open spec fn wss_scheme() -> Seq<char> {
    seq!['w', 's', 's', ':', '/', '/']
}

pub open spec fn ws_scheme() -> Seq<char> {
    seq!['w', 's', ':', '/', '/']
}

/// The forbidden instance host, `mastodon.social`.
pub open spec fn forbidden_host() -> Seq<char> {
    seq!['m', 'a', 's', 't', 'o', 'd', 'o', 'n', '.', 's', 'o', 'c', 'i', 'a', 'l']
}

/// The host that a raw instance string names: trimmed, with any
/// `https://`, `http://`, `wss://`, `ws://` prefixes (in that order, each
/// repeated) and any trailing `/` removed.
pub open spec fn normalized_host(raw: Seq<char>) -> Seq<char> {
    let t = trim_end_ws(trim_start_ws(raw));
    let a = strip_prefixes(t, https_scheme());
    let b = strip_prefixes(a, http_scheme());
    let c = strip_prefixes(b, wss_scheme());
    let d = strip_prefixes(c, ws_scheme());
    strip_trailing(d, '/')
}

/// The code of `c` with ASCII upper-case letters folded to lower case.
pub open spec fn ascii_fold(c: char) -> u32 {
    let u = c as u32;
    if 0x41 <= u <= 0x5a {
        (u + 0x20) as u32
    } else {
        u
    }
}

/// `str::eq_ignore_ascii_case` on character sequences.
pub open spec fn eq_ignore_ascii_case(a: Seq<char>, b: Seq<char>) -> bool {
    &&& a.len() == b.len()
    &&& forall|i: int| 0 <= i < a.len() ==> ascii_fold(a[i]) == ascii_fold(b[i])
}

/// What `FirehoseConfig::validate` answers for the raw instance `raw`.
pub open spec fn validation_of(raw: Seq<char>, r: Result<FirehoseConfig, ConfigError>) -> bool {
    let h = normalized_host(raw);
    if h.len() == 0 {
        r matches Err(ConfigError::EmptyInstance)
    } else if eq_ignore_ascii_case(h, forbidden_host()) {
        r matches Err(ConfigError::ForbiddenInstance(s)) && s@ == h
    } else {
        r matches Ok(cfg) && cfg.instance@ == h
    }
}

fn is_white_space_exec(c: char) -> (r: bool)
    ensures
        r == is_white_space(c),
{
    let u = c as u32;
    (0x09 <= u && u <= 0x0d) || u == 0x20 || u == 0x85 || u == 0xa0 || u == 0x1680 || (0x2000
        <= u && u <= 0x200a) || u == 0x2028 || u == 0x2029 || u == 0x202f || u == 0x205f || u
        == 0x3000
}

fn ascii_fold_exec(c: char) -> (r: u32)
    ensures
        r == ascii_fold(c),
{
    let u = c as u32;
    if 0x41 <= u && u <= 0x5a {
        u + 0x20
    } else {
        u
    }
}

fn chars_of(s: &str) -> (r: Vec<char>)
    ensures
        r@ == s@,
{
    let n = s.unicode_len();
    let mut r: Vec<char> = Vec::new();
    let mut i: usize = 0;
    while i < n
        invariant
            n == s@.len(),
            0 <= i <= n,
            r@ == s@.take(i as int),
        decreases n - i,
    {
        let c = s.get_char(i);
        r.push(c);
        assert(r@ =~= s@.take(i + 1));
        i = i + 1;
    }
    assert(r@ =~= s@);
    r
}

/// Skip the leading white space of the window `cs[lo..hi]`.
fn skip_leading_ws(cs: &Vec<char>, lo: usize, hi: usize) -> (r: usize)
    requires
        lo <= hi <= cs.len(),
    ensures
        lo <= r <= hi,
        cs@.subrange(r as int, hi as int) == trim_start_ws(cs@.subrange(lo as int, hi as int)),
{
    let mut i = lo;
    while i < hi && is_white_space_exec(cs[i])
        invariant
            lo <= i <= hi <= cs.len(),
            trim_start_ws(cs@.subrange(i as int, hi as int)) == trim_start_ws(
                cs@.subrange(lo as int, hi as int),
            ),
        decreases hi - i,
    {
        assert(cs@.subrange(i as int, hi as int).drop_first() =~= cs@.subrange(i + 1, hi as int));
        i = i + 1;
    }
    i
}

/// Drop the trailing white space of the window `cs[lo..hi]`.
fn skip_trailing_ws(cs: &Vec<char>, lo: usize, hi: usize) -> (r: usize)
    requires
        lo <= hi <= cs.len(),
    ensures
        lo <= r <= hi,
        cs@.subrange(lo as int, r as int) == trim_end_ws(cs@.subrange(lo as int, hi as int)),
{
    let mut j = hi;
    while j > lo && is_white_space_exec(cs[j - 1])
        invariant
            lo <= j <= hi <= cs.len(),
            trim_end_ws(cs@.subrange(lo as int, j as int)) == trim_end_ws(
                cs@.subrange(lo as int, hi as int),
            ),
        decreases j - lo,
    {
        assert(cs@.subrange(lo as int, j as int).drop_last() =~= cs@.subrange(lo as int, j - 1));
        j = j - 1;
    }
    j
}

/// Whether the window `cs[i..hi]` starts with `p`.
fn starts_with_at(cs: &Vec<char>, i: usize, hi: usize, p: &Vec<char>) -> (r: bool)
    requires
        i <= hi <= cs.len(),
    ensures
        r == (p.len() <= hi - i && cs@.subrange(i as int, hi as int).take(p.len() as int) == p@),
{
    if p.len() > hi - i {
        return false;
    }
    let mut k: usize = 0;
    while k < p.len()
        invariant
            i <= hi <= cs.len(),
            p.len() <= hi - i,
            0 <= k <= p.len(),
            forall|m: int| 0 <= m < k ==> cs@[i + m] == p@[m],
        decreases p.len() - k,
    {
        if cs[i + k] != p[k] {
            assert(cs@.subrange(i as int, hi as int).take(p.len() as int)[k as int] != p@[k as int]);
            return false;
        }
        k = k + 1;
    }
    assert(cs@.subrange(i as int, hi as int).take(p.len() as int) =~= p@);
    true
}

/// Skip every leading repetition of `p` in the window `cs[lo..hi]`.
fn skip_prefixes(cs: &Vec<char>, lo: usize, hi: usize, p: &Vec<char>) -> (r: usize)
    requires
        lo <= hi <= cs.len(),
        p.len() > 0,
    ensures
        lo <= r <= hi,
        cs@.subrange(r as int, hi as int) == strip_prefixes(
            cs@.subrange(lo as int, hi as int),
            p@,
        ),
{
    let mut i = lo;
    while starts_with_at(cs, i, hi, p)
        invariant
            lo <= i <= hi <= cs.len(),
            p.len() > 0,
            strip_prefixes(cs@.subrange(i as int, hi as int), p@) == strip_prefixes(
                cs@.subrange(lo as int, hi as int),
                p@,
            ),
        decreases hi - i,
    {
        assert(cs@.subrange(i as int, hi as int).skip(p.len() as int) =~= cs@.subrange(
            i + p.len(),
            hi as int,
        ));
        i = i + p.len();
    }
    i
}

/// Drop every trailing `c` of the window `cs[lo..hi]`.
fn skip_trailing_char(cs: &Vec<char>, lo: usize, hi: usize, c: char) -> (r: usize)
    requires
        lo <= hi <= cs.len(),
    ensures
        lo <= r <= hi,
        cs@.subrange(lo as int, r as int) == strip_trailing(
            cs@.subrange(lo as int, hi as int),
            c,
        ),
{
    let mut j = hi;
    while j > lo && cs[j - 1] == c
        invariant
            lo <= j <= hi <= cs.len(),
            strip_trailing(cs@.subrange(lo as int, j as int), c) == strip_trailing(
                cs@.subrange(lo as int, hi as int),
                c,
            ),
        decreases j - lo,
    {
        assert(cs@.subrange(lo as int, j as int).drop_last() =~= cs@.subrange(lo as int, j - 1));
        j = j - 1;
    }
    j
}

/// Whether the window `cs[lo..hi]` equals `t`, ignoring ASCII case.
fn window_eq_ignore_ascii_case(cs: &Vec<char>, lo: usize, hi: usize, t: &Vec<char>) -> (r: bool)
    requires
        lo <= hi <= cs.len(),
    ensures
        r == eq_ignore_ascii_case(cs@.subrange(lo as int, hi as int), t@),
{
    if hi - lo != t.len() {
        return false;
    }
    let mut k: usize = 0;
    while k < t.len()
        invariant
            lo <= hi <= cs.len(),
            hi - lo == t.len(),
            0 <= k <= t.len(),
            forall|m: int| 0 <= m < k ==> ascii_fold(cs@[lo + m]) == ascii_fold(t@[m]),
        decreases t.len() - k,
    {
        if ascii_fold_exec(cs[lo + k]) != ascii_fold_exec(t[k]) {
            assert(cs@.subrange(lo as int, hi as int)[k as int] == cs@[lo + k]);
            return false;
        }
        k = k + 1;
    }
    assert forall|m: int| 0 <= m < t.len() implies ascii_fold(
        cs@.subrange(lo as int, hi as int)[m],
    ) == ascii_fold(t@[m]) by {
        assert(cs@.subrange(lo as int, hi as int)[m] == cs@[lo + m]);
    }
    true
}

impl ConfigError {
    /// The human-readable message of this error.
    pub fn message(&self) -> (r: String)
        ensures
            self matches ConfigError::ForbiddenInstance(h) ==> r@ == "instance `"@ + h@
                + "` is forbidden (over-filtered firehose lacks irritation density)"@,
            self matches ConfigError::EmptyInstance ==> r@ == "empty instance host"@,
    {
        match self {
            ConfigError::ForbiddenInstance(h) => {
                let mut r = "instance `".to_owned();
                r.append(h.as_str());
                r.append("` is forbidden (over-filtered firehose lacks irritation density)");
                r
            },
            ConfigError::EmptyInstance => "empty instance host".to_owned(),
        }
    }
}

impl FirehoseConfig {
    /// Validate an instance host: trim it, strip any scheme prefix and
    /// trailing slashes, refuse an empty host and the forbidden instance
    /// (compared ignoring ASCII case).
    pub fn validate(instance: &str) -> (r: Result<FirehoseConfig, ConfigError>)
        ensures
            validation_of(instance@, r),
    {
        let cs = chars_of(instance);
        let n = cs.len();
        let lo = skip_leading_ws(&cs, 0, n);
        let hi = skip_trailing_ws(&cs, lo, n);
        let https = vec!['h', 't', 't', 'p', 's', ':', '/', '/'];
        let http = vec!['h', 't', 't', 'p', ':', '/', '/'];
        let wss = vec!['w', 's', 's', ':', '/', '/'];
        let ws = vec!['w', 's', ':', '/', '/'];
        let forbidden = vec!['m', 'a', 's', 't', 'o', 'd', 'o', 'n', '.', 's', 'o', 'c', 'i', 'a', 'l'];
        assert(https@ == https_scheme());
        assert(http@ == http_scheme());
        assert(wss@ == wss_scheme());
        assert(ws@ == ws_scheme());
        assert(forbidden@ == forbidden_host());
        let a = skip_prefixes(&cs, lo, hi, &https);
        let b = skip_prefixes(&cs, a, hi, &http);
        let c = skip_prefixes(&cs, b, hi, &wss);
        let d = skip_prefixes(&cs, c, hi, &ws);
        let e = skip_trailing_char(&cs, d, hi, '/');
        proof {
            assert(cs@.subrange(0, n as int) =~= instance@);
        }
        if e == d {
            proof {
                assert(cs@.subrange(d as int, e as int).len() == 0);
            }
            return Err(ConfigError::EmptyInstance);
        }
        let host = instance.substring_char(d, e).to_owned();
        if window_eq_ignore_ascii_case(&cs, d, e, &forbidden) {
            return Err(ConfigError::ForbiddenInstance(host));
        }
        Ok(FirehoseConfig { instance: host })
    }
}

/// [`FORBIDDEN_INSTANCE`] is the host that [`FirehoseConfig::validate`]
/// refuses.
pub proof fn lemma_forbidden_instance()
    ensures
        FORBIDDEN_INSTANCE@ == forbidden_host(),
{
    reveal_strlit("mastodon.social");
    assert(FORBIDDEN_INSTANCE@ =~= forbidden_host());
}

/// `s` does not start with the pattern `q`.
pub open spec fn lacks_prefix(s: Seq<char>, q: Seq<char>) -> bool {
    !(q.len() <= s.len() && s.take(q.len() as int) == q)
}

/// Stripping a pattern that `s` differs from at position `k` leaves `s`.
proof fn lemma_strip_absent(s: Seq<char>, q: Seq<char>, k: int)
    requires
        0 <= k < q.len(),
        k < s.len() ==> s[k] != q[k],
    ensures
        strip_prefixes(s, q) == s,
{
    if q.len() <= s.len() {
        assert(s.take(q.len() as int)[k] != q[k]);
    }
}

/// Stripping a pattern that `s` does not start with leaves `s`.
proof fn lemma_strip_none(s: Seq<char>, q: Seq<char>)
    requires
        lacks_prefix(s, q),
    ensures
        strip_prefixes(s, q) == s,
{
}

/// A scheme in front of a host is dropped by validation: for a host `h`
/// without surrounding white space that starts with none of `https://`,
/// `http://`, `wss://`, `ws://`, the instance `p + h` names the same host
/// as `h` for each of these schemes `p`, so it is validated the same way.
pub proof fn lemma_scheme_is_stripped(p: Seq<char>, h: Seq<char>)
    requires
        p == seq!['h', 't', 't', 'p', 's', ':', '/', '/'] || p == seq![
            'h',
            't',
            't',
            'p',
            ':',
            '/',
            '/',
        ] || p == seq!['w', 's', 's', ':', '/', '/'] || p == seq!['w', 's', ':', '/', '/'],
        h.len() > 0 ==> !is_white_space(h[0]) && !is_white_space(h.last()),
        lacks_prefix(h, seq!['h', 't', 't', 'p', 's', ':', '/', '/']),
        lacks_prefix(h, seq!['h', 't', 't', 'p', ':', '/', '/']),
        lacks_prefix(h, seq!['w', 's', 's', ':', '/', '/']),
        lacks_prefix(h, seq!['w', 's', ':', '/', '/']),
    ensures
        normalized_host(p + h) == normalized_host(h),
        normalized_host(h) == strip_trailing(h, '/'),
        forall|r: Result<FirehoseConfig, ConfigError>| validation_of(p + h, r) == validation_of(h, r),
{
    let s = p + h;
    assert(h.take(h.len() as int) =~= h);
    // White space: neither `p + h` nor `h` has any at either end.
    assert(s[0] == p[0]);
    assert(!is_white_space(p[0]));
    if h.len() > 0 {
        assert(s.last() == h.last());
    } else {
        assert(s.last() == p.last());
        assert(!is_white_space(p.last()));
    }
    assert(trim_start_ws(s) == s);
    assert(trim_end_ws(s) == s);
    assert(trim_start_ws(h) == h);
    assert(trim_end_ws(h) == h);
    // `h` starts with no scheme, so every strip leaves it.
    lemma_strip_none(h, https_scheme());
    lemma_strip_none(h, http_scheme());
    lemma_strip_none(h, wss_scheme());
    lemma_strip_none(h, ws_scheme());
    // `p + h` loses exactly `p`.
    assert(s.take(p.len() as int) =~= p);
    assert(s.skip(p.len() as int) =~= h);
    if p == https_scheme() {
        assert(strip_prefixes(s, https_scheme()) == strip_prefixes(h, https_scheme()));
    } else if p == http_scheme() {
        assert(s[4] == ':');
        lemma_strip_absent(s, https_scheme(), 4);
        assert(strip_prefixes(s, http_scheme()) == strip_prefixes(h, http_scheme()));
    } else if p == wss_scheme() {
        assert(s[0] == 'w');
        lemma_strip_absent(s, https_scheme(), 0);
        lemma_strip_absent(s, http_scheme(), 0);
        assert(strip_prefixes(s, wss_scheme()) == strip_prefixes(h, wss_scheme()));
    } else {
        assert(s[0] == 'w');
        assert(s[2] == ':');
        lemma_strip_absent(s, https_scheme(), 0);
        lemma_strip_absent(s, http_scheme(), 0);
        lemma_strip_absent(s, wss_scheme(), 2);
        assert(strip_prefixes(s, ws_scheme()) == strip_prefixes(h, ws_scheme()));
    }
}

/// What became of an attempt to feed on the firehose.
#[derive(Debug, Clone, Copy, PartialEq, Eq, Structural)]
pub enum FeedEvent {
    /// The socket connected.
    Connected,
    /// The connected stream ended (closed by the remote, or errored).
    StreamEnded,
    /// Connecting failed with this HTTP status, if the failure was an HTTP
    /// answer at all.
    ConnectFailed(Option<u16>),
}

/// The feeding strategy that follows an event: a connected socket feeds on
/// the firehose; an ended stream or a failed connection falls back to the
/// bus; an HTTP 429 answer starves the FSMs for good (no retry).
pub fn health_after(event: FeedEvent) -> (r: Health)
    ensures
        r == match event {
            FeedEvent::Connected => Health::FirehoseFeeding,
            FeedEvent::StreamEnded => Health::BusFeeding,
            FeedEvent::ConnectFailed(Some(status)) => if status == 429 {
                Health::Starved
            } else {
                Health::BusFeeding
            },
            FeedEvent::ConnectFailed(None) => Health::BusFeeding,
        },
{
    match event {
        FeedEvent::Connected => Health::FirehoseFeeding,
        FeedEvent::StreamEnded => Health::BusFeeding,
        FeedEvent::ConnectFailed(Some(status)) => if status == 429 {
            Health::Starved
        } else {
            Health::BusFeeding
        },
        FeedEvent::ConnectFailed(None) => Health::BusFeeding,
    }
}

/// A message read from the firehose socket, reduced to what the reader
/// acts on.
#[derive(Debug, Clone, PartialEq, Eq)]
pub enum SocketMessage {
    Text(Vec<u8>),
    Binary(Vec<u8>),
    Ping,
    Pong,
    Close,
    /// Any other frame.
    Other,
    /// Reading the stream failed.
    Error,
}

/// What the socket reader does with one message.
#[derive(Debug, Clone, Copy, PartialEq, Eq, Structural)]
pub enum ReadAction {
    /// Push the message's payload into the byte buffer.
    Push,
    /// Ignore the message and read on.
    Skip,
    /// Stop reading: the stream is over.
    Stop,
}

/// The reader's action on a message: payloads are pushed, control frames
/// skipped, and a close frame or a read error ends the stream.
pub fn read_action(msg: &SocketMessage) -> (r: ReadAction)
    ensures
        r == match msg {
            SocketMessage::Text(_) => ReadAction::Push,
            SocketMessage::Binary(_) => ReadAction::Push,
            SocketMessage::Close => ReadAction::Stop,
            SocketMessage::Error => ReadAction::Stop,
            _ => ReadAction::Skip,
        },
{
    match msg {
        SocketMessage::Text(_) => ReadAction::Push,
        SocketMessage::Binary(_) => ReadAction::Push,
        SocketMessage::Close => ReadAction::Stop,
        SocketMessage::Error => ReadAction::Stop,
        _ => ReadAction::Skip,
    }
}

#[verifier::external_type_specification]
#[verifier::external_body]
#[verifier::reject_recursive_types(T)]
pub struct ExSender<T>(mpsc::Sender<T>);

/// The sending half of the lossy byte buffer, with a record of every byte
/// offered to it through [`push_lossy`] and whether the buffer took it.
pub struct LossyFeed {
    tx: mpsc::Sender<u8>,
    offered: Ghost<Seq<(u8, bool)>>,
}

/// How many of the offers in `log` the buffer refused.
pub open spec fn refusals(log: Seq<(u8, bool)>) -> nat
    decreases log.len(),
{
    if log.len() == 0 {
        0
    } else {
        refusals(log.drop_last()) + if log.last().1 {
            0nat
        } else {
            1nat
        }
    }
}

impl LossyFeed {
    /// Every byte offered so far, in order, with whether it was taken.
    pub closed spec fn log(&self) -> Seq<(u8, bool)> {
        self.offered@
    }

    /// A feed into the buffer behind `tx`; nothing offered yet.
    pub fn new(tx: mpsc::Sender<u8>) -> (r: Self)
        ensures
            r.log() == Seq::<(u8, bool)>::empty(),
    {
        LossyFeed { tx, offered: Ghost(Seq::empty()) }
    }
}

/// `tokio::sync::mpsc::Sender::try_send` of `b`, reporting whether the
/// buffer took it. The offer and its outcome are recorded; whether there
/// is room depends on the consumer, so nothing is claimed of the outcome.
#[verifier::external_body]
fn try_send_byte(feed: &mut LossyFeed, b: u8) -> (r: bool)
    ensures
        final(feed).log() == old(feed).log().push((b, r)),
{
    feed.tx.try_send(b).is_ok()
}

/// Offer each byte of `data` to the buffer, once and in order, dropping
/// every byte that does not fit (no back-pressure). Returns how many bytes
/// were dropped: the number of refused offers.
pub fn push_lossy(feed: &mut LossyFeed, data: &[u8]) -> (dropped: usize)
    ensures
        final(feed).log().len() == old(feed).log().len() + data@.len(),
        final(feed).log().take(old(feed).log().len() as int) == old(feed).log(),
        forall|i: int|
            0 <= i < data@.len() ==> #[trigger] final(feed).log()[old(feed).log().len() + i].0
                == data@[i],
        dropped == refusals(final(feed).log().skip(old(feed).log().len() as int)),
{
    let ghost start = feed.log();
    let mut dropped: usize = 0;
    let mut i: usize = 0;
    while i < data.len()
        invariant
            0 <= i <= data@.len(),
            feed.log().len() == start.len() + i,
            feed.log().take(start.len() as int) == start,
            forall|k: int| 0 <= k < i ==> #[trigger] feed.log()[start.len() + k].0 == data@[k],
            dropped == refusals(feed.log().skip(start.len() as int)),
            dropped <= i,
        decreases data.len() - i,
    {
        let ghost before = feed.log();
        let taken = try_send_byte(feed, data[i]);
        proof {
            let after = feed.log();
            assert(after.skip(start.len() as int).drop_last() =~= before.skip(start.len() as int));
            assert(after.take(start.len() as int) =~= before.take(start.len() as int));
            assert forall|k: int| 0 <= k < i + 1 implies #[trigger] after[start.len() + k].0
                == data@[k] by {
                if k < i {
                    assert(after[start.len() + k] == before[start.len() + k]);
                }
            }
        }
        if !taken {
            dropped = dropped + 1;
        }
        i = i + 1;
    }
    dropped
}

} // verus!
