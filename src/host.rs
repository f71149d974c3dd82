//! The virtual-host grammar.
//!
//! A routable host value reads `<prefix><id>-<port>.<rest>`, optionally
//! followed by `:<port>`, which is ignored. The prefix names the protocol
//! (`devboxgrpc-` for gRPC over cleartext HTTP/2, `devbox-` for plain HTTP):
//! the protocol is decided by the literal prefix alone, with no sniffing of
//! the request. The identifier is lowercase letters, digits and hyphens, and
//! starts and ends with a letter or digit. The port token is a decimal port
//! number or the keyword `agent`, which stands for the configured agent port.
//! The identifier extends to the last hyphen of the first dot-delimited label,
//! so that it may itself hold hyphens.
use vstd::prelude::*;

verus! {

/// The protocol spoken to the backend.
#[derive(Debug, Clone, Copy, PartialEq, Eq, Structural)]
pub enum UpstreamProtocol {
    /// HTTP/1.1 over cleartext (prefix `devbox-`).
    Http,
    /// gRPC over cleartext HTTP/2 (prefix `devboxgrpc-`).
    Grpc,
}

/// The agent port used where no configuration gives another.
pub const DEFAULT_AGENT_PORT: u16 = 9757;

// ---------------------------------------------------------------------------
// Character classes and positions
// ---------------------------------------------------------------------------

pub open spec fn is_digit(c: char) -> bool {
    '0' <= c && c <= '9'
}

pub open spec fn is_lower_alnum(c: char) -> bool {
    ('a' <= c && c <= 'z') || is_digit(c)
}

pub open spec fn is_id_char(c: char) -> bool {
    is_lower_alnum(c) || c == '-'
}

/// `i` is the position of the first `c` in `s`.
pub open spec fn is_first_pos(s: Seq<char>, c: char, i: int) -> bool {
    &&& 0 <= i < s.len()
    &&& s[i] == c
    &&& forall|j: int| 0 <= j < i ==> s[j] != c
}

/// The position of the first `c` in `s`, or the length of `s` if it holds none.
pub open spec fn first_pos(s: Seq<char>, c: char) -> int {
    if exists|i: int| is_first_pos(s, c, i) {
        choose|i: int| is_first_pos(s, c, i)
    } else {
        s.len() as int
    }
}

/// `i` is the position of the last `c` in `s`.
pub open spec fn is_last_pos(s: Seq<char>, c: char, i: int) -> bool {
    &&& 0 <= i < s.len()
    &&& s[i] == c
    &&& forall|j: int| i < j < s.len() ==> s[j] != c
}

/// The position of the last `c` in `s`, or -1 if it holds none.
pub open spec fn last_pos(s: Seq<char>, c: char) -> int {
    if exists|i: int| is_last_pos(s, c, i) {
        choose|i: int| is_last_pos(s, c, i)
    } else {
        -1
    }
}

pub proof fn lemma_first_pos(s: Seq<char>, c: char, i: int)
    requires
        0 <= i <= s.len(),
        forall|j: int| 0 <= j < i ==> s[j] != c,
        i == s.len() || s[i] == c,
    ensures
        first_pos(s, c) == i,
{
    if i < s.len() {
        assert(is_first_pos(s, c, i));
        let k = choose|k: int| is_first_pos(s, c, k);
        assert(k == i) by {
            if k < i {
                assert(s[k] != c);
            } else if k > i {
                assert(s[i] != c);
            }
        }
    } else {
        assert forall|k: int| !is_first_pos(s, c, k) by {
            if 0 <= k < s.len() {
                assert(s[k] != c);
            }
        }
    }
}

pub proof fn lemma_last_pos(s: Seq<char>, c: char, i: int)
    requires
        -1 <= i < s.len(),
        forall|j: int| i < j < s.len() ==> s[j] != c,
        i == -1 || s[i] == c,
    ensures
        last_pos(s, c) == i,
{
    if i >= 0 {
        assert(is_last_pos(s, c, i));
        let k = choose|k: int| is_last_pos(s, c, k);
        assert(k == i) by {
            if k < i {
                assert(s[i] != c);
            } else if k > i {
                assert(s[k] != c);
            }
        }
    } else {
        assert forall|k: int| !is_last_pos(s, c, k) by {
            if 0 <= k < s.len() {
                assert(s[k] != c);
            }
        }
    }
}

// ---------------------------------------------------------------------------
// The grammar
// ---------------------------------------------------------------------------

pub open spec fn http_prefix() -> Seq<char> {
    seq!['d', 'e', 'v', 'b', 'o', 'x', '-']
}

pub open spec fn grpc_prefix() -> Seq<char> {
    seq!['d', 'e', 'v', 'b', 'o', 'x', 'g', 'r', 'p', 'c', '-']
}

pub open spec fn agent_keyword() -> Seq<char> {
    seq!['a', 'g', 'e', 'n', 't']
}

/// A tenant identifier: lowercase letters, digits and hyphens, starting and
/// ending with a letter or digit.
pub open spec fn valid_unique_id(s: Seq<char>) -> bool {
    &&& s.len() > 0
    &&& is_lower_alnum(s[0])
    &&& is_lower_alnum(s[s.len() - 1])
    &&& forall|i: int| 0 <= i < s.len() ==> is_id_char(#[trigger] s[i])
}

/// A non-empty run of decimal digits.
pub open spec fn is_decimal(s: Seq<char>) -> bool {
    s.len() > 0 && forall|i: int| 0 <= i < s.len() ==> is_digit(#[trigger] s[i])
}

pub open spec fn digit_value(c: char) -> nat {
    (c as nat - '0' as nat) as nat
}

/// The number that a run of decimal digits writes.
pub open spec fn decimal_value(s: Seq<char>) -> nat
    decreases s.len(),
{
    if s.len() == 0 {
        0
    } else {
        decimal_value(s.drop_last()) * 10 + digit_value(s.last())
    }
}

/// The port that a port token stands for, if it is one.
pub open spec fn port_of_token(token: Seq<char>, agent_port: u16) -> Option<u16> {
    if token == agent_keyword() {
        Some(agent_port)
    } else if is_decimal(token) && decimal_value(token) <= 65535 {
        Some(decimal_value(token) as u16)
    } else {
        None
    }
}

/// The host name: the host value up to its first `:`.
pub open spec fn host_name(host: Seq<char>) -> Seq<char> {
    host.take(first_pos(host, ':'))
}

/// `s` with the prefix `p` taken off, if `s` starts with it.
pub open spec fn strip_prefix(s: Seq<char>, p: Seq<char>) -> Option<Seq<char>> {
    if p.len() <= s.len() && s.take(p.len() as int) == p {
        Some(s.skip(p.len() as int))
    } else {
        None
    }
}

/// The protocol that a host name's prefix names, and what follows the prefix.
pub open spec fn classify_prefix(name: Seq<char>) -> Option<(UpstreamProtocol, Seq<char>)> {
    match strip_prefix(name, grpc_prefix()) {
        Some(rest) => Some((UpstreamProtocol::Grpc, rest)),
        None => match strip_prefix(name, http_prefix()) {
            Some(rest) => Some((UpstreamProtocol::Http, rest)),
            None => None,
        },
    }
}

/// Identifier and port from what follows the prefix: the first label (up to
/// the first `.`, which must be there) splits at its last hyphen into the
/// identifier and the port token.
pub open spec fn parse_label(rest: Seq<char>, agent_port: u16) -> Option<(Seq<char>, u16)> {
    let dot = first_pos(rest, '.');
    let label = rest.take(dot);
    let k = last_pos(label, '-');
    if dot < rest.len() && k >= 0 && valid_unique_id(label.take(k)) {
        match port_of_token(label.skip(k + 1), agent_port) {
            Some(port) => Some((label.take(k), port)),
            None => None,
        }
    } else {
        None
    }
}

/// What a host value routes to: protocol, tenant identifier and port.
pub open spec fn parse_host_spec(host: Seq<char>, agent_port: u16) -> Option<(UpstreamProtocol, Seq<char>, u16)> {
    match classify_prefix(host_name(host)) {
        Some((protocol, rest)) => match parse_label(rest, agent_port) {
            Some((id, port)) => Some((protocol, id, port)),
            None => None,
        },
        None => None,
    }
}

/// The parse result seen through the characters of the identifier.
pub open spec fn parsed_view(r: Option<(UpstreamProtocol, String, u16)>) -> Option<(UpstreamProtocol, Seq<char>, u16)> {
    match r {
        Some((protocol, id, port)) => Some((protocol, id@, port)),
        None => None,
    }
}

// ---------------------------------------------------------------------------
// Executable parsing
// ---------------------------------------------------------------------------

/// The characters of a string, one by one.
fn chars_of(s: &str) -> (r: Vec<char>)
    ensures
        r@ == s@,
{
    let mut out: Vec<char> = Vec::new();
    for c in it: s.chars()
        invariant
            it.seq() == s@,
            out@ == s@.take(it.index() as int),
    {
        out.push(c);
    }
    out
}

/// The position of the first `c` in `cs[lo..hi]`, counted from 0, or `hi`
/// if there is none.
fn find_first(cs: &Vec<char>, lo: usize, hi: usize, c: char) -> (r: usize)
    requires
        lo <= hi <= cs.len(),
    ensures
        lo <= r <= hi,
        r - lo == first_pos(cs@.subrange(lo as int, hi as int), c),
{
    let mut i: usize = lo;
    while i < hi && cs[i] != c
        invariant
            lo <= i <= hi <= cs.len(),
            forall|j: int| lo <= j < i ==> cs@[j] != c,
        decreases hi - i,
    {
        i = i + 1;
    }
    proof {
        lemma_first_pos(cs@.subrange(lo as int, hi as int), c, i - lo);
    }
    i
}

/// The position of the last `c` in `cs[lo..hi]`, if there is one.
fn find_last(cs: &Vec<char>, lo: usize, hi: usize, c: char) -> (r: Option<usize>)
    requires
        lo <= hi <= cs.len(),
    ensures
        r.is_none() ==> last_pos(cs@.subrange(lo as int, hi as int), c) == -1,
        r.is_some() ==> lo <= r.unwrap() < hi
            && r.unwrap() - lo == last_pos(cs@.subrange(lo as int, hi as int), c),
{
    let mut i: usize = hi;
    while i > lo && cs[i - 1] != c
        invariant
            lo <= i <= hi <= cs.len(),
            forall|j: int| i <= j < hi ==> cs@[j] != c,
        decreases i - lo,
    {
        i = i - 1;
    }
    if i == lo {
        proof {
            lemma_last_pos(cs@.subrange(lo as int, hi as int), c, -1);
        }
        None
    } else {
        proof {
            lemma_last_pos(cs@.subrange(lo as int, hi as int), c, i - 1 - lo);
        }
        Some(i - 1)
    }
}

/// Whether `cs[lo..hi]` is exactly `p`.
fn matches_at(cs: &Vec<char>, lo: usize, hi: usize, p: &[char]) -> (r: bool)
    requires
        lo <= hi <= cs.len(),
    ensures
        r == (cs@.subrange(lo as int, hi as int) == p@),
{
    if hi - lo != p.len() {
        return false;
    }
    let mut i: usize = 0;
    while i < p.len()
        invariant
            lo <= hi <= cs.len(),
            hi - lo == p@.len(),
            i <= p@.len(),
            forall|j: int| 0 <= j < i ==> cs@[lo + j] == p@[j],
        decreases p.len() - i,
    {
        if cs[lo + i] != p[i] {
            assert(cs@.subrange(lo as int, hi as int)[i as int] != p@[i as int]);
            return false;
        }
        i = i + 1;
    }
    assert(cs@.subrange(lo as int, hi as int) =~= p@);
    true
}

fn is_lower_alnum_char(c: char) -> (r: bool)
    ensures
        r == is_lower_alnum(c),
{
    ('a' <= c && c <= 'z') || ('0' <= c && c <= '9')
}

/// Whether `cs[lo..hi]` is a tenant identifier.
fn is_valid_id(cs: &Vec<char>, lo: usize, hi: usize) -> (r: bool)
    requires
        lo <= hi <= cs.len(),
    ensures
        r == valid_unique_id(cs@.subrange(lo as int, hi as int)),
{
    let ghost s = cs@.subrange(lo as int, hi as int);
    if lo == hi {
        return false;
    }
    if !is_lower_alnum_char(cs[lo]) || !is_lower_alnum_char(cs[hi - 1]) {
        return false;
    }
    let mut i: usize = lo;
    while i < hi
        invariant
            lo <= i <= hi <= cs.len(),
            s == cs@.subrange(lo as int, hi as int),
            forall|j: int| 0 <= j < i - lo ==> is_id_char(#[trigger] s[j]),
        decreases hi - i,
    {
        let c = cs[i];
        if !(is_lower_alnum_char(c) || c == '-') {
            assert(!is_id_char(s[i - lo]));
            return false;
        }
        i = i + 1;
    }
    true
}

proof fn lemma_decimal_value_grows(s: Seq<char>, i: int)
    requires
        0 <= i <= s.len(),
    ensures
        decimal_value(s.take(i)) <= decimal_value(s),
    decreases s.len() - i,
{
    if i < s.len() {
        lemma_decimal_value_grows(s, i + 1);
        assert(s.take(i + 1).drop_last() =~= s.take(i));
    } else {
        assert(s.take(i) =~= s);
    }
}

/// The port that the token `cs[lo..hi]` stands for, if it is one.
fn port_of_token_at(cs: &Vec<char>, lo: usize, hi: usize, agent_port: u16) -> (r: Option<u16>)
    requires
        lo <= hi <= cs.len(),
    ensures
        r == port_of_token(cs@.subrange(lo as int, hi as int), agent_port),
{
    let ghost s = cs@.subrange(lo as int, hi as int);
    let keyword: [char; 5] = ['a', 'g', 'e', 'n', 't'];
    assert(keyword@ =~= agent_keyword());
    if matches_at(cs, lo, hi, &keyword) {
        return Some(agent_port);
    }
    if lo == hi {
        return None;
    }
    let mut value: u32 = 0;
    let mut i: usize = lo;
    while i < hi
        invariant
            lo <= i <= hi <= cs.len(),
            s == cs@.subrange(lo as int, hi as int),
            s != agent_keyword(),
            forall|j: int| 0 <= j < i - lo ==> is_digit(#[trigger] s[j]),
            value == decimal_value(s.take(i - lo)),
            value <= 65535,
        decreases hi - i,
    {
        let c = cs[i];
        if !('0' <= c && c <= '9') {
            assert(!is_digit(s[i - lo]));
            return None;
        }
        let d = (c as u32) - ('0' as u32);
        assert(s.take(i - lo + 1).drop_last() =~= s.take(i - lo));
        value = value * 10 + d;
        if value > 65535 {
            proof {
                lemma_decimal_value_grows(s, i - lo + 1);
            }
            return None;
        }
        i = i + 1;
    }
    assert(s.take(i - lo) =~= s);
    Some(value as u16)
}

/// The end of the identifier and the port, when what follows the prefix,
/// `cs[start..end]`, begins with a routable label.
fn parse_label_at(cs: &Vec<char>, start: usize, end: usize, agent_port: u16) -> (r: Option<(usize, u16)>)
    requires
        start <= end <= cs.len(),
    ensures
        r.is_some() == parse_label(cs@.subrange(start as int, end as int), agent_port).is_some(),
        r.is_some() ==> start <= r.unwrap().0 <= end && parse_label(cs@.subrange(start as int, end as int), agent_port)
            == Some((cs@.subrange(start as int, r.unwrap().0 as int), r.unwrap().1)),
{
    let ghost rest = cs@.subrange(start as int, end as int);
    let dot = find_first(cs, start, end, '.');
    if dot == end {
        return None;
    }
    let ghost label = rest.take(dot - start);
    assert(label =~= cs@.subrange(start as int, dot as int));
    let k = match find_last(cs, start, dot, '-') {
        Some(k) => k,
        None => {
            return None;
        },
    };
    assert(label.take(k - start) =~= cs@.subrange(start as int, k as int));
    assert(label.skip(k - start + 1) =~= cs@.subrange(k + 1, dot as int));
    if !is_valid_id(cs, start, k) {
        return None;
    }
    match port_of_token_at(cs, k + 1, dot, agent_port) {
        Some(port) => Some((k, port)),
        None => None,
    }
}

/// Protocol, tenant identifier and port from a host value, under the given
/// agent port; `None` if the host value is not routable.
pub fn parse_host_with_agent_port(host: &str, agent_port: u16) -> (r: Option<(UpstreamProtocol, String, u16)>)
    ensures
        parsed_view(r) == parse_host_spec(host@, agent_port),
{
    let cs = chars_of(host);
    assert(cs@.subrange(0, cs@.len() as int) =~= cs@);
    let end = find_first(&cs, 0, cs.len(), ':');
    let ghost name = host_name(host@);
    assert(name =~= cs@.subrange(0, end as int));
    let grpc: [char; 11] = ['d', 'e', 'v', 'b', 'o', 'x', 'g', 'r', 'p', 'c', '-'];
    let http: [char; 7] = ['d', 'e', 'v', 'b', 'o', 'x', '-'];
    assert(grpc@ =~= grpc_prefix());
    assert(http@ =~= http_prefix());
    let protocol: UpstreamProtocol;
    let start: usize;
    if end >= 11 && matches_at(&cs, 0, 11, &grpc) {
        assert(name.take(11) =~= cs@.subrange(0, 11));
        protocol = UpstreamProtocol::Grpc;
        start = 11;
    } else if end >= 7 && matches_at(&cs, 0, 7, &http) {
        assert(name.take(11) =~= cs@.subrange(0, 11) || end < 11);
        assert(name.take(7) =~= cs@.subrange(0, 7));
        protocol = UpstreamProtocol::Http;
        start = 7;
    } else {
        assert(name.take(11) =~= cs@.subrange(0, 11) || end < 11);
        assert(name.take(7) =~= cs@.subrange(0, 7) || end < 7);
        return None;
    }
    assert(name.skip(start as int) =~= cs@.subrange(start as int, end as int));
    match parse_label_at(&cs, start, end, agent_port) {
        Some((k, port)) => {
            let id = host.substring_char(start, k).to_owned();
            Some((protocol, id, port))
        },
        None => None,
    }
}

// ---------------------------------------------------------------------------
// Laws of the grammar
// ---------------------------------------------------------------------------

proof fn lemma_no_first_pos(s: Seq<char>, c: char, n: int)
    requires
        0 <= n <= s.len(),
        !exists|i: int| is_first_pos(s, c, i),
    ensures
        forall|j: int| 0 <= j < n ==> s[j] != c,
    decreases n,
{
    if n > 0 {
        lemma_no_first_pos(s, c, n - 1);
        assert(!is_first_pos(s, c, n - 1));
    }
}

proof fn lemma_first_pos_bounds(s: Seq<char>, c: char)
    ensures
        0 <= first_pos(s, c) <= s.len(),
        forall|j: int| 0 <= j < first_pos(s, c) ==> s[j] != c,
        first_pos(s, c) == s.len() || s[first_pos(s, c)] == c,
{
    if exists|i: int| is_first_pos(s, c, i) {
        let k = choose|i: int| is_first_pos(s, c, i);
        assert(is_first_pos(s, c, k));
    } else {
        lemma_no_first_pos(s, c, s.len() as int);
    }
}

/// Before a part that does not hold `c`, the first `c` moves by that part's length.
proof fn lemma_first_pos_after(a: Seq<char>, b: Seq<char>, c: char)
    requires
        forall|i: int| 0 <= i < a.len() ==> a[i] != c,
    ensures
        first_pos(a + b, c) == a.len() + first_pos(b, c),
{
    lemma_first_pos_bounds(b, c);
    let f = first_pos(b, c);
    let s = a + b;
    assert forall|j: int| 0 <= j < a.len() + f implies s[j] != c by {
        if j >= a.len() {
            assert(s[j] == b[j - a.len()]);
        }
    }
    lemma_first_pos(s, c, a.len() + f);
}

proof fn lemma_host_name_after(head: Seq<char>, rest: Seq<char>)
    requires
        forall|i: int| 0 <= i < head.len() ==> head[i] != ':',
    ensures
        host_name(head + rest) == head + rest.take(first_pos(rest, ':')),
{
    lemma_first_pos_after(head, rest, ':');
    lemma_first_pos_bounds(rest, ':');
    assert((head + rest).take(head.len() + first_pos(rest, ':')) =~= head + rest.take(first_pos(rest, ':')));
}

proof fn lemma_classify_prefix(prefix: Seq<char>, after: Seq<char>)
    requires
        prefix == http_prefix() || prefix == grpc_prefix(),
    ensures
        classify_prefix(prefix + after) == Some((
            if prefix == grpc_prefix() { UpstreamProtocol::Grpc } else { UpstreamProtocol::Http },
            after,
        )),
{
    let name = prefix + after;
    if prefix == grpc_prefix() {
        assert(name.take(11) =~= prefix);
        assert(name.skip(11) =~= after);
    } else {
        assert(name.take(7) =~= prefix);
        assert(name.skip(7) =~= after);
        if name.len() >= 11 {
            assert(name.take(11)[6] != grpc_prefix()[6]);
        }
    }
}

proof fn lemma_parse_label_shape(id: Seq<char>, token: Seq<char>, trimmed: Seq<char>, agent_port: u16)
    requires
        forall|i: int| 0 <= i < id.len() ==> id[i] != '.',
        forall|i: int| 0 <= i < token.len() ==> token[i] != '-' && token[i] != '.',
    ensures
        parse_label(id + seq!['-'] + token + seq!['.'] + trimmed, agent_port) == (
        if valid_unique_id(id) && port_of_token(token, agent_port).is_some() {
            Some((id, port_of_token(token, agent_port).unwrap()))
        } else {
            None
        }),
{
    let label = id + seq!['-'] + token;
    let after = id + seq!['-'] + token + seq!['.'] + trimmed;
    assert forall|i: int| 0 <= i < label.len() implies label[i] != '.' by {
        if i < id.len() {
            assert(label[i] == id[i]);
        } else if i > id.len() {
            assert(label[i] == token[i - id.len() - 1]);
        }
    }
    assert(after =~= label + (seq!['.'] + trimmed));
    lemma_first_pos_after(label, seq!['.'] + trimmed, '.');
    lemma_first_pos(seq!['.'] + trimmed, '.', 0);
    assert(after.take(label.len() as int) =~= label);
    assert forall|j: int| id.len() < j < label.len() implies label[j] != '-' by {
        assert(label[j] == token[j - id.len() - 1]);
    }
    lemma_last_pos(label, '-', id.len() as int);
    assert(label.take(id.len() as int) =~= id);
    assert(label.skip(id.len() as int + 1) =~= token);
}

/// The host value `prefix + id + "-" + token + "." + rest`, where neither the
/// identifier nor the token holds a dot or a colon and the token holds no
/// hyphen, parses to the identifier and the token's port exactly when the
/// identifier is valid and the token is a port.
proof fn lemma_parse_shape(prefix: Seq<char>, id: Seq<char>, token: Seq<char>, rest: Seq<char>, agent_port: u16)
    requires
        prefix == http_prefix() || prefix == grpc_prefix(),
        forall|i: int| 0 <= i < id.len() ==> id[i] != '.' && id[i] != ':',
        forall|i: int| 0 <= i < token.len() ==> token[i] != '-' && token[i] != '.' && token[i] != ':',
    ensures
        parse_host_spec(prefix + id + seq!['-'] + token + seq!['.'] + rest, agent_port) == (
        if valid_unique_id(id) && port_of_token(token, agent_port).is_some() {
            Some((
                if prefix == grpc_prefix() { UpstreamProtocol::Grpc } else { UpstreamProtocol::Http },
                id,
                port_of_token(token, agent_port).unwrap(),
            ))
        } else {
            None
        }),
{
    let label = id + seq!['-'] + token;
    let head = prefix + label + seq!['.'];
    assert(prefix + id + seq!['-'] + token + seq!['.'] + rest =~= head + rest);
    assert forall|i: int| 0 <= i < head.len() implies head[i] != ':' by {
        if i < prefix.len() {
            assert(head[i] == prefix[i]);
        } else if i < prefix.len() + id.len() {
            assert(head[i] == id[i - prefix.len()]);
        } else if i < prefix.len() + id.len() + 1 {
        } else if i < prefix.len() + label.len() {
            assert(head[i] == token[i - prefix.len() - id.len() - 1]);
        }
    }
    lemma_host_name_after(head, rest);
    let trimmed = rest.take(first_pos(rest, ':'));
    let after = id + seq!['-'] + token + seq!['.'] + trimmed;
    assert(head + trimmed =~= prefix + after);
    lemma_classify_prefix(prefix, after);
    lemma_parse_label_shape(id, token, trimmed, agent_port);
}

/// A host value made of a routing prefix, a valid identifier, a hyphen, a
/// port token (a decimal port number or the agent keyword), a dot and
/// anything at all parses to exactly that identifier and port, under the
/// protocol that the prefix names. The identifier may hold hyphens of its
/// own.
pub proof fn lemma_parse_host_routable(prefix: Seq<char>, id: Seq<char>, token: Seq<char>, rest: Seq<char>, agent_port: u16)
    requires
        prefix == http_prefix() || prefix == grpc_prefix(),
        valid_unique_id(id),
        token == agent_keyword() || (is_decimal(token) && decimal_value(token) <= 65535),
    ensures
        parse_host_spec(prefix + id + seq!['-'] + token + seq!['.'] + rest, agent_port) == Some((
            if prefix == grpc_prefix() { UpstreamProtocol::Grpc } else { UpstreamProtocol::Http },
            id,
            port_of_token(token, agent_port).unwrap(),
        )),
{
    assert forall|i: int| 0 <= i < id.len() implies id[i] != '.' && id[i] != ':' by {
        assert(is_id_char(id[i]));
    }
    assert forall|i: int| 0 <= i < token.len() implies token[i] != '-' && token[i] != '.' && token[i] != ':' by {
        if token != agent_keyword() {
            assert(is_digit(token[i]));
        }
    }
    lemma_parse_shape(prefix, id, token, rest, agent_port);
}

/// A host value that starts with neither routing prefix does not parse.
pub proof fn lemma_parse_host_needs_prefix(host: Seq<char>, agent_port: u16)
    requires
        strip_prefix(host, http_prefix()).is_none(),
        strip_prefix(host, grpc_prefix()).is_none(),
    ensures
        parse_host_spec(host, agent_port).is_none(),
{
    lemma_first_pos_bounds(host, ':');
    let name = host_name(host);
    if name.len() >= 7 {
        assert(name.take(7) =~= host.take(7));
    }
    if name.len() >= 11 {
        assert(name.take(11) =~= host.take(11));
    }
}

/// An identifier that starts or ends with a hyphen makes a host value that
/// does not parse, whatever port token and remainder follow it.
pub proof fn lemma_parse_host_rejects_hyphen_edge(prefix: Seq<char>, id: Seq<char>, token: Seq<char>, rest: Seq<char>, agent_port: u16)
    requires
        prefix == http_prefix() || prefix == grpc_prefix(),
        id.len() > 0,
        forall|i: int| 0 <= i < id.len() ==> is_id_char(#[trigger] id[i]),
        id[0] == '-' || id[id.len() - 1] == '-',
        token == agent_keyword() || (is_decimal(token) && decimal_value(token) <= 65535),
    ensures
        parse_host_spec(prefix + id + seq!['-'] + token + seq!['.'] + rest, agent_port).is_none(),
{
    assert forall|i: int| 0 <= i < id.len() implies id[i] != '.' && id[i] != ':' by {
        assert(is_id_char(id[i]));
    }
    assert forall|i: int| 0 <= i < token.len() implies token[i] != '-' && token[i] != '.' && token[i] != ':' by {
        if token != agent_keyword() {
            assert(is_digit(token[i]));
        }
    }
    lemma_parse_shape(prefix, id, token, rest, agent_port);
}

/// A port token that is neither a run of decimal digits nor the agent
/// keyword makes a host value that does not parse, provided the token holds
/// no hyphen, dot or colon (with a hyphen, the split moves into the token).
pub proof fn lemma_parse_host_rejects_bad_port(prefix: Seq<char>, id: Seq<char>, token: Seq<char>, rest: Seq<char>, agent_port: u16)
    requires
        prefix == http_prefix() || prefix == grpc_prefix(),
        valid_unique_id(id),
        !is_decimal(token),
        token != agent_keyword(),
        forall|i: int| 0 <= i < token.len() ==> token[i] != '-' && token[i] != '.' && token[i] != ':',
    ensures
        parse_host_spec(prefix + id + seq!['-'] + token + seq!['.'] + rest, agent_port).is_none(),
{
    assert forall|i: int| 0 <= i < id.len() implies id[i] != '.' && id[i] != ':' by {
        assert(is_id_char(id[i]));
    }
    lemma_parse_shape(prefix, id, token, rest, agent_port);
}

} // verus!
