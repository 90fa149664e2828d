//! Quick Connect parser for SSH destination strings.
use vstd::prelude::*;

use crate::config::schema::{SessionProfile, DEFAULT_SSH_PORT};
use crate::ssh::auth::clone_opt_string;
use crate::text::{push_str, push_decimal, decimal,
    all_digits, decimal_u16, digits_value, find_first, find_last, has_char, has_substring,
    has_whitespace, starts_with, string_of, trim_ws,
};

verus! {

/// A parsed Quick Connect target.
#[derive(Debug, PartialEq, Eq)]
pub struct QuickConnectTarget {
    pub username: Option<String>,
    pub host: String,
    pub port: u16,
}

pub struct QuickConnectTargetView {
    pub username: Option<Seq<char>>,
    pub host: Seq<char>,
    pub port: u16,
}

pub open spec fn opt_string_view(s: Option<String>) -> Option<Seq<char>> {
    match s {
        Some(v) => Some(v@),
        None => None,
    }
}

impl View for QuickConnectTarget {
    type V = QuickConnectTargetView;

    open spec fn view(&self) -> QuickConnectTargetView {
        QuickConnectTargetView {
            username: opt_string_view(self.username),
            host: self.host@,
            port: self.port,
        }
    }
}

/// Quick Connect parse and validation failures.
#[derive(Debug, PartialEq, Eq)]
pub enum QuickConnectError {
    Empty,
    UnsupportedScheme,
    MissingHost,
    InvalidHost(String),
    InvalidPort(String),
    InvalidUsername,
}

pub enum QuickConnectErrorView {
    Empty,
    UnsupportedScheme,
    MissingHost,
    InvalidHost(Seq<char>),
    InvalidPort(Seq<char>),
    InvalidUsername,
}

impl View for QuickConnectError {
    type V = QuickConnectErrorView;

    open spec fn view(&self) -> QuickConnectErrorView {
        match self {
            QuickConnectError::Empty => QuickConnectErrorView::Empty,
            QuickConnectError::UnsupportedScheme => QuickConnectErrorView::UnsupportedScheme,
            QuickConnectError::MissingHost => QuickConnectErrorView::MissingHost,
            QuickConnectError::InvalidHost(h) => QuickConnectErrorView::InvalidHost(h@),
            QuickConnectError::InvalidPort(p) => QuickConnectErrorView::InvalidPort(p@),
            QuickConnectError::InvalidUsername => QuickConnectErrorView::InvalidUsername,
        }
    }
}

pub open spec fn ssh_scheme() -> Seq<char> {
    seq!['s', 's', 'h', ':', '/', '/']
}

pub open spec fn scheme_separator() -> Seq<char> {
    seq![':', '/', '/']
}

/// The trimmed input without its `ssh://` prefix; any other scheme is refused.
pub open spec fn spec_without_scheme(t: Seq<char>) -> Result<Seq<char>, QuickConnectErrorView> {
    if starts_with(t, ssh_scheme()) {
        Ok(t.skip(6))
    } else if has_substring(t, scheme_separator()) {
        Err(QuickConnectErrorView::UnsupportedScheme)
    } else {
        Ok(t)
    }
}

/// The part before the first `/` (a trailing path is ignored).
pub open spec fn spec_authority(w: Seq<char>) -> Seq<char> {
    match find_first(w, '/') {
        Some(i) => w.take(i as int),
        None => w,
    }
}

/// The user name before the last `@`, and the rest.
pub open spec fn spec_username(a: Seq<char>) -> Result<
    (Option<Seq<char>>, Seq<char>),
    QuickConnectErrorView,
> {
    match find_last(a, '@') {
        Some(i) => {
            let user = a.take(i as int);
            if user.len() == 0 || has_whitespace(user) {
                Err(QuickConnectErrorView::InvalidUsername)
            } else {
                Ok((Some(user), a.skip(i + 1int)))
            }
        },
        None => Ok((None, a)),
    }
}

/// A port: one to five digits with a value from 1 to 65535.
pub open spec fn spec_port(p: Seq<char>) -> Result<u16, QuickConnectErrorView> {
    match decimal_u16(p) {
        Some(v) => if v == 0 {
            Err(QuickConnectErrorView::InvalidPort(p))
        } else {
            Ok(v)
        },
        None => Err(QuickConnectErrorView::InvalidPort(p)),
    }
}

/// Host and port: `[v6]`, `[v6]:port`, `host:port`, or a host alone (port 22).
/// Text with several colons and no brackets is taken as a bare IPv6 host.
pub open spec fn spec_host_port(hp: Seq<char>) -> Result<(Seq<char>, u16), QuickConnectErrorView> {
    if hp.len() == 0 {
        Err(QuickConnectErrorView::MissingHost)
    } else if hp[0] == '[' {
        match find_first(hp, ']') {
            None => Err(QuickConnectErrorView::InvalidHost(hp)),
            Some(j) => {
                let host = hp.subrange(1, j as int);
                let rest = hp.skip(j + 1int);
                if rest.len() == 0 {
                    Ok((host, 22))
                } else if rest[0] == ':' {
                    match spec_port(rest.skip(1)) {
                        Ok(port) => Ok((host, port)),
                        Err(e) => Err(e),
                    }
                } else {
                    Err(QuickConnectErrorView::InvalidHost(hp))
                }
            },
        }
    } else {
        match find_last(hp, ':') {
            Some(i) => {
                let host = hp.take(i as int);
                if !has_char(host, ':') {
                    match spec_port(hp.skip(i + 1int)) {
                        Ok(port) => Ok((host, port)),
                        Err(e) => Err(e),
                    }
                } else {
                    Ok((hp, 22))
                }
            },
            None => Ok((hp, 22)),
        }
    }
}

/// Why a host is refused, if it is.
pub open spec fn spec_host_error(h: Seq<char>) -> Option<QuickConnectErrorView> {
    if h.len() == 0 {
        Some(QuickConnectErrorView::MissingHost)
    } else if has_whitespace(h) || has_char(h, '@') || h[0] == '-' {
        Some(QuickConnectErrorView::InvalidHost(h))
    } else {
        None
    }
}

/// What `parse_quick_connect` returns for `input`.
pub open spec fn spec_parse_quick_connect(input: Seq<char>) -> Result<
    QuickConnectTargetView,
    QuickConnectErrorView,
> {
    let t = trim_ws(input);
    if t.len() == 0 {
        Err(QuickConnectErrorView::Empty)
    } else {
        match spec_without_scheme(t) {
            Err(e) => Err(e),
            Ok(w) => match spec_username(spec_authority(w)) {
                Err(e) => Err(e),
                Ok((user, hp)) => match spec_host_port(hp) {
                    Err(e) => Err(e),
                    Ok((host, port)) => match spec_host_error(host) {
                        Some(e) => Err(e),
                        None => Ok(QuickConnectTargetView { username: user, host, port }),
                    },
                },
            },
        }
    }
}

pub open spec fn quick_connect_result_view(r: Result<QuickConnectTarget, QuickConnectError>) -> Result<
    QuickConnectTargetView,
    QuickConnectErrorView,
> {
    match r {
        Ok(t) => Ok(t@),
        Err(e) => Err(e@),
    }
}

fn lit(s: &str) -> (v: Vec<char>)
    ensures
        v@ == s@,
{
    crate::text::chars_of(s)
}

/// The port in `v[from..to]`.
fn parse_port(v: &Vec<char>, from: usize, to: usize) -> (r: Result<u16, QuickConnectError>)
    requires
        from <= to <= v@.len(),
    ensures
        match (r, spec_port(v@.subrange(from as int, to as int))) {
            (Ok(a), Ok(b)) => a == b,
            (Err(a), Err(b)) => a@ == b,
            _ => false,
        },
{
    match crate::text::parse_decimal_u16(v, from, to) {
        Some(p) => if p == 0 {
            Err(QuickConnectError::InvalidPort(string_of(&crate::text::slice_chars(v, from, to))))
        } else {
            Ok(p)
        },
        None => Err(QuickConnectError::InvalidPort(string_of(&crate::text::slice_chars(v, from, to)))),
    }
}

/// Host and port from `v[from..to]`, as absolute host bounds and a port.
fn parse_host_port(v: &Vec<char>, from: usize, to: usize) -> (r: Result<
    (usize, usize, u16),
    QuickConnectError,
>)
    requires
        from <= to <= v@.len(),
    ensures
        match (r, spec_host_port(v@.subrange(from as int, to as int))) {
            (Ok((a, b, port)), Ok((host, p))) => from <= a <= b <= to && v@.subrange(
                a as int,
                b as int,
            ) == host && port == p,
            (Err(a), Err(b)) => a@ == b,
            _ => false,
        },
{
    let ghost hp = v@.subrange(from as int, to as int);
    if from == to {
        return Err(QuickConnectError::MissingHost);
    }
    if v[from] == '[' {
        match crate::text::position_first(v, from, to, ']') {
            None => {
                return Err(
                    QuickConnectError::InvalidHost(string_of(&crate::text::slice_chars(v, from, to))),
                );
            },
            Some(j) => {
                proof {
                    crate::text::lemma_find_first(hp, ']');
                    assert(hp.subrange(1, j as int) =~= v@.subrange(from + 1, from + j));
                    assert(hp.skip(j + 1) =~= v@.subrange(from + j + 1, to as int));
                }
                let rest_start = from + j + 1;
                if rest_start == to {
                    return Ok((from + 1, from + j, 22));
                } else if v[rest_start] == ':' {
                    proof {
                        assert(hp.skip(j + 1).skip(1) =~= v@.subrange(rest_start + 1, to as int));
                    }
                    match parse_port(v, rest_start + 1, to) {
                        Ok(port) => {
                            return Ok((from + 1, from + j, port));
                        },
                        Err(e) => {
                            return Err(e);
                        },
                    }
                } else {
                    return Err(
                        QuickConnectError::InvalidHost(
                            string_of(&crate::text::slice_chars(v, from, to)),
                        ),
                    );
                }
            },
        }
    }
    match crate::text::position_last(v, from, to, ':') {
        Some(i) => {
            proof {
                crate::text::lemma_find_last(hp, ':');
                assert(hp.take(i as int) =~= v@.subrange(from as int, from + i));
                assert(hp.skip(i + 1) =~= v@.subrange(from + i + 1, to as int));
            }
            if !crate::text::contains_char(v, from, from + i, ':') {
                match parse_port(v, from + i + 1, to) {
                    Ok(port) => Ok((from, from + i, port)),
                    Err(e) => Err(e),
                }
            } else {
                Ok((from, to, 22))
            }
        },
        None => Ok((from, to, 22)),
    }
}

/// Start of the text after an `ssh://` prefix in `v[a..b]`.
fn strip_scheme(v: &Vec<char>, a: usize, b: usize) -> (r: Result<usize, QuickConnectError>)
    requires
        a <= b <= v@.len(),
    ensures
        match (r, spec_without_scheme(v@.subrange(a as int, b as int))) {
            (Ok(w), Ok(rest)) => a <= w <= b && v@.subrange(w as int, b as int) == rest,
            (Err(e1), Err(e2)) => e1@ == e2,
            _ => false,
        },
{
    let ghost t = v@.subrange(a as int, b as int);
    let scheme = lit("ssh://");
    let sep = lit("://");
    proof {
        reveal_strlit("ssh://");
        reveal_strlit("://");
        assert(scheme@ =~= ssh_scheme());
        assert(sep@ =~= scheme_separator());
        if 6 <= t.len() {
            assert(t.take(6) =~= t.subrange(0, 6));
        }
    }
    if crate::text::occurs_in(v, a, b, &scheme, 0) {
        proof {
            assert(t.skip(6) =~= v@.subrange(a + 6, b as int));
        }
        Ok(a + 6)
    } else if crate::text::contains_seq(v, a, b, &sep) {
        Err(QuickConnectError::UnsupportedScheme)
    } else {
        Ok(a)
    }
}

/// End of the authority (before the first `/`) of `v[w..b]`.
fn authority_end(v: &Vec<char>, w: usize, b: usize) -> (e: usize)
    requires
        w <= b <= v@.len(),
    ensures
        w <= e <= b,
        v@.subrange(w as int, e as int) == spec_authority(v@.subrange(w as int, b as int)),
{
    let ghost ws = v@.subrange(w as int, b as int);
    match crate::text::position_first(v, w, b, '/') {
        Some(i) => {
            proof {
                crate::text::lemma_find_first(ws, '/');
                assert(ws.take(i as int) =~= v@.subrange(w as int, w + i));
            }
            w + i
        },
        None => b,
    }
}

/// User name of the authority `v[w..e]` and the start of its host part.
fn split_username(v: &Vec<char>, w: usize, e: usize) -> (r: Result<
    (Option<String>, usize),
    QuickConnectError,
>)
    requires
        w <= e <= v@.len(),
    ensures
        match (r, spec_username(v@.subrange(w as int, e as int))) {
            (Ok((user, h)), Ok((u2, hp))) => w <= h <= e && opt_string_view(user) == u2
                && v@.subrange(h as int, e as int) == hp,
            (Err(e1), Err(e2)) => e1@ == e2,
            _ => false,
        },
{
    let ghost auth = v@.subrange(w as int, e as int);
    match crate::text::position_last(v, w, e, '@') {
        Some(i) => {
            proof {
                crate::text::lemma_find_last(auth, '@');
                assert(auth.take(i as int) =~= v@.subrange(w as int, w + i));
                assert(auth.skip(i + 1) =~= v@.subrange(w + i + 1, e as int));
            }
            if i == 0 || crate::text::contains_whitespace(v, w, w + i) {
                return Err(QuickConnectError::InvalidUsername);
            }
            Ok((Some(string_of(&crate::text::slice_chars(v, w, w + i))), w + i + 1))
        },
        None => Ok((None, w)),
    }
}

/// Why the host `v[hs..he]` is refused, if it is.
fn host_error(v: &Vec<char>, hs: usize, he: usize) -> (r: Option<QuickConnectError>)
    requires
        hs <= he <= v@.len(),
    ensures
        match (r, spec_host_error(v@.subrange(hs as int, he as int))) {
            (Some(e1), Some(e2)) => e1@ == e2,
            (None, None) => true,
            _ => false,
        },
{
    if hs == he {
        return Some(QuickConnectError::MissingHost);
    }
    if crate::text::contains_whitespace(v, hs, he) || crate::text::contains_char(v, hs, he, '@')
        || v[hs] == '-' {
        return Some(
            QuickConnectError::InvalidHost(string_of(&crate::text::slice_chars(v, hs, he))),
        );
    }
    None
}

/// Parses `host`, `user@host`, `host:port`, `user@host:port` and
/// `ssh://user@host:port[/path]` (surrounding whitespace is ignored).
pub fn parse_quick_connect(input: &str) -> (r: Result<QuickConnectTarget, QuickConnectError>)
    ensures
        quick_connect_result_view(r) == spec_parse_quick_connect(input@),
{
    let v = crate::text::chars_of(input);
    let (a, b) = crate::text::trim_bounds(&v);
    if a == b {
        return Err(QuickConnectError::Empty);
    }
    let w = match strip_scheme(&v, a, b) {
        Ok(w) => w,
        Err(e) => {
            return Err(e);
        },
    };
    let e = authority_end(&v, w, b);
    let (username, hp) = match split_username(&v, w, e) {
        Ok(x) => x,
        Err(err) => {
            return Err(err);
        },
    };
    let (hs, he, port) = match parse_host_port(&v, hp, e) {
        Ok(x) => x,
        Err(err) => {
            return Err(err);
        },
    };
    match host_error(&v, hs, he) {
        Some(err) => {
            return Err(err);
        },
        None => {},
    }
    let host = string_of(&crate::text::slice_chars(&v, hs, he));
    Ok(QuickConnectTarget { username, host, port })
}


impl QuickConnectTarget {
    /// A saved session for this target: named after the host, with the
    /// target's user and port.
    pub fn into_session_profile(self, id: &str) -> (p: SessionProfile)
        ensures
            p.id@ == id@,
            p.name@ == self.host@,
            p.host@ == self.host@,
            p.port == self.port,
            opt_string_view(p.username) == opt_string_view(self.username),
            p.auth_profile_id is None,
            p.proxy_profile_id is None,
            p.sftp is None,
            p.tunnel is None,
            p.appearance is None,
            p.logging is None,
            p.tags@.len() == 0,
    {
        let mut profile = SessionProfile::new(id, self.host.as_str(), self.host.as_str());
        profile.username = self.username;
        profile.port = self.port;
        profile
    }
}

impl Clone for QuickConnectTarget {
    fn clone(&self) -> (c: QuickConnectTarget)
        ensures
            c@ == self@,
    {
        QuickConnectTarget {
            username: clone_opt_string(&self.username),
            host: self.host.clone(),
            port: self.port,
        }
    }
}

/// The error's display text.
pub open spec fn quick_connect_message(e: QuickConnectErrorView) -> Seq<char> {
    match e {
        QuickConnectErrorView::Empty => "quick connect target is empty"@,
        QuickConnectErrorView::UnsupportedScheme => "only ssh:// quick connect URLs are supported"@,
        QuickConnectErrorView::MissingHost => "quick connect target is missing a host"@,
        QuickConnectErrorView::InvalidHost(h) => "invalid quick connect host '"@ + h + "'"@,
        QuickConnectErrorView::InvalidPort(p) => "invalid quick connect port '"@ + p + "'"@,
        QuickConnectErrorView::InvalidUsername => "quick connect username is invalid"@,
    }
}

impl QuickConnectError {
    /// The error's display text.
    pub fn describe(&self) -> (s: String)
        ensures
            s@ == quick_connect_message(self@),
    {
        let mut s = String::new();
        match self {
            QuickConnectError::Empty => push_str(&mut s, "quick connect target is empty"),
            QuickConnectError::UnsupportedScheme => push_str(
                &mut s,
                "only ssh:// quick connect URLs are supported",
            ),
            QuickConnectError::MissingHost => push_str(&mut s, "quick connect target is missing a host"),
            QuickConnectError::InvalidHost(h) => {
                push_str(&mut s, "invalid quick connect host '");
                push_str(&mut s, h.as_str());
                push_str(&mut s, "'");
            },
            QuickConnectError::InvalidPort(p) => {
                push_str(&mut s, "invalid quick connect port '");
                push_str(&mut s, p.as_str());
                push_str(&mut s, "'");
            },
            QuickConnectError::InvalidUsername => push_str(&mut s, "quick connect username is invalid"),
        }
        assert(Seq::<char>::empty() + "quick connect target is empty"@ =~= "quick connect target is empty"@);
        assert(Seq::<char>::empty() + "only ssh:// quick connect URLs are supported"@ =~= "only ssh:// quick connect URLs are supported"@);
        assert(Seq::<char>::empty() + "quick connect target is missing a host"@ =~= "quick connect target is missing a host"@);
        assert(Seq::<char>::empty() + "quick connect username is invalid"@ =~= "quick connect username is invalid"@);
        assert(Seq::<char>::empty() + "invalid quick connect host '"@ =~= "invalid quick connect host '"@);
        assert(Seq::<char>::empty() + "invalid quick connect port '"@ =~= "invalid quick connect port '"@);
        s
    }
}

/// The status line shown after validating a Quick Connect input: the target's
/// user (`<default>` when none), host and port, or the error's text.
pub open spec fn quick_connect_status_text(
    r: Result<QuickConnectTargetView, QuickConnectErrorView>,
) -> Seq<char> {
    match r {
        Ok(t) => "Quick Connect validated: user="@ + (match t.username {
            Some(u) => u,
            None => "<default>"@,
        }) + " host="@ + t.host + " port="@ + decimal(t.port as nat),
        Err(e) => "Quick Connect error: "@ + quick_connect_message(e),
    }
}

/// Validates a Quick Connect input and gives the status line to show.
pub fn quick_connect_status(input: &str) -> (s: String)
    ensures
        s@ == quick_connect_status_text(spec_parse_quick_connect(input@)),
{
    let mut s = String::new();
    match parse_quick_connect(input) {
        Ok(t) => {
            push_str(&mut s, "Quick Connect validated: user=");
            match &t.username {
                Some(u) => push_str(&mut s, u.as_str()),
                None => push_str(&mut s, "<default>"),
            }
            push_str(&mut s, " host=");
            push_str(&mut s, t.host.as_str());
            push_str(&mut s, " port=");
            push_decimal(&mut s, t.port as u64);
            assert(s@ =~= quick_connect_status_text(spec_parse_quick_connect(input@)));
        },
        Err(e) => {
            push_str(&mut s, "Quick Connect error: ");
            let text = e.describe();
            push_str(&mut s, text.as_str());
            assert(s@ =~= quick_connect_status_text(spec_parse_quick_connect(input@)));
        },
    }
    s
}

} // verus!
