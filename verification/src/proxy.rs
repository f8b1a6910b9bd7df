//! Turning the Windows system proxy setting into proxy environment variables for
//! child processes.
use vstd::prelude::*;
use crate::text::{char_vec, contains, find_char, index_of, lemma_index_of_bounds, occurs_in, range_is, range_texts, split_on, split_ranges, string_of, trim, trim_range};

verus! {

broadcast use vstd::string::group_string_axioms;

/// An address with a scheme: kept as it is when it names one, else taken as HTTP.
pub open spec fn with_scheme(address: Seq<char>) -> Seq<char> {
    if occurs_in(address, "://"@) {
        address
    } else {
        "http://"@ + address
    }
}

/// Proxy parsing state: HTTP proxy, HTTPS proxy, and whether parsing stopped.
pub type ProxyState = (Seq<char>, Seq<char>, bool);

/// One `;`-separated part of the setting `server`: `scheme=address` sets the proxy
/// of that scheme; a part without `=` stops the parsing and, unless both proxies
/// are already known, makes the whole setting the proxy of both schemes.
pub open spec fn proxy_step(server: Seq<char>, st: ProxyState, part: Seq<char>) -> ProxyState {
    if st.2 {
        st
    } else {
        match index_of(part, '=') {
            Some(i) => {
                let scheme = trim(part.take(i));
                let address = trim(part.skip(i + 1));
                if address.len() == 0 {
                    st
                } else if scheme == "http"@ {
                    (with_scheme(address), st.1, false)
                } else if scheme == "https"@ {
                    (st.0, with_scheme(address), false)
                } else {
                    st
                }
            },
            None => {
                if st.0.len() > 0 && st.1.len() > 0 {
                    (st.0, st.1, true)
                } else {
                    (with_scheme(server), with_scheme(server), true)
                }
            },
        }
    }
}

/// The state after reading `parts` in order.
pub open spec fn proxy_fold(server: Seq<char>, parts: Seq<Seq<char>>) -> ProxyState
    decreases parts.len(),
{
    if parts.len() == 0 {
        (Seq::empty(), Seq::empty(), false)
    } else {
        proxy_step(server, proxy_fold(server, parts.drop_last()), parts.last())
    }
}

/// `s` without trailing NUL characters.
pub open spec fn trim_nul_end(s: Seq<char>) -> Seq<char>
    decreases s.len(),
{
    if s.len() > 0 && s.last() == '\0' {
        trim_nul_end(s.drop_last())
    } else {
        s
    }
}

/// The environment variables for a registry proxy setting `raw` (trailing NULs are
/// ignored): `HTTP_PROXY` and `HTTPS_PROXY` where known, then `NO_PROXY` exempting
/// this machine when either is set.
pub open spec fn proxy_vars(raw: Seq<char>) -> Seq<(Seq<char>, Seq<char>)> {
    let server = trim_nul_end(raw);
    if server.len() == 0 {
        Seq::empty()
    } else {
        let st = proxy_fold(server, split_on(server, ';'));
        let v0 = Seq::<(Seq<char>, Seq<char>)>::empty();
        let v1 = if st.0.len() > 0 { v0.push(("HTTP_PROXY"@, st.0)) } else { v0 };
        let v2 = if st.1.len() > 0 { v1.push(("HTTPS_PROXY"@, st.1)) } else { v1 };
        if v2.len() > 0 { v2.push(("NO_PROXY"@, "localhost,127.0.0.1,::1"@)) } else { v2 }
    }
}

/// The values of a list of name/value pairs.
pub open spec fn pair_views(v: Seq<(String, String)>) -> Seq<(Seq<char>, Seq<char>)> {
    v.map_values(|p: (String, String)| (p.0@, p.1@))
}

fn scheme_url(address: String) -> (r: String)
    ensures
        r@ == with_scheme(address@),
{
    if contains(address.as_str(), "://") {
        address
    } else {
        let mut r = String::from_str("http://");
        r.append(address.as_str());
        r
    }
}

fn push_pair(v: &mut Vec<(String, String)>, name: &str, value: String)
    ensures
        pair_views(final(v)@) == pair_views(old(v)@).push((name@, value@)),
{
    let ghost before = v@;
    v.push((String::from_str(name), value));
    assert(pair_views(v@) =~= pair_views(before).push((name@, value@)));
}

/// The proxy environment for the system proxy setting `raw`, as read from the
/// registry.
pub fn system_proxy_vars(raw: &str) -> (r: Vec<(String, String)>)
    ensures
        pair_views(r@) == proxy_vars(raw@),
{
    let x = char_vec(raw);
    let mut end = x.len();
    assert(x@.take(x@.len() as int) =~= x@);
    while end > 0 && x[end - 1] == '\0'
        invariant
            end <= x@.len(),
            trim_nul_end(x@) == trim_nul_end(x@.take(end as int)),
        decreases end,
    {
        assert(x@.take(end as int).drop_last() =~= x@.take(end - 1));
        end = end - 1;
    }
    assert(x@.take(x@.len() as int) =~= x@);
    let server_chars = string_of(&x, 0, end);
    assert(x@.subrange(0, end as int) =~= x@.take(end as int));
    let ghost server = server_chars@;
    assert(server == trim_nul_end(x@));
    let mut out: Vec<(String, String)> = Vec::new();
    if end == 0 {
        assert(pair_views(out@) =~= Seq::<(Seq<char>, Seq<char>)>::empty());
        return out;
    }
    let s = char_vec(server_chars.as_str());
    let ranges = split_ranges(&s, ';');
    let mut http = String::new();
    let mut https = String::new();
    let mut done = false;
    let mut k: usize = 0;
    let ghost parts = split_on(server, ';');
    assert(parts.take(0) =~= Seq::<Seq<char>>::empty());
    while k < ranges.len() && !done
        invariant
            s@ == server,
            server_chars@ == server,
            parts == split_on(server, ';'),
            range_texts(s@, ranges@) == parts,
            forall|j: int| 0 <= j < ranges@.len() ==> #[trigger] ranges@[j].0 <= ranges@[j].1
                <= s@.len(),
            k <= ranges@.len(),
            proxy_fold(server, parts.take(k as int)) == (http@, https@, done),
            done ==> forall|n: int|
                k <= n <= parts.len() ==> #[trigger] proxy_fold(server, parts.take(n)) == (
                    http@,
                    https@,
                    done,
                ),
        decreases ranges.len() - k,
    {
        let (from, to) = ranges[k];
        let ghost part = s@.subrange(from as int, to as int);
        assert(parts[k as int] == part);
        assert(parts.take(k + 1).drop_last() =~= parts.take(k as int));
        assert(parts.take(k + 1).last() == part);
        let ghost st: ProxyState = (http@, https@, done);
        assert(proxy_fold(server, parts.take(k + 1)) == proxy_step(server, st, part));
        match find_char(&s, from, to, '=') {
            Some(i) => {
                proof { lemma_index_of_bounds(part, '='); }
                let (sa, sb) = trim_range(&s, from, from + i);
                let (aa, ab) = trim_range(&s, from + i + 1, to);
                assert(part.take(i as int) =~= s@.subrange(from as int, from + i));
                assert(part.skip(i + 1) =~= s@.subrange(from + i + 1, to as int));
                let ghost scheme = trim(part.take(i as int));
                let ghost address = trim(part.skip(i + 1));
                assert(scheme == s@.subrange(sa as int, sb as int));
                assert(address == s@.subrange(aa as int, ab as int));
                assert(index_of(part, '=') == Some(i as int));
                assert(!st.2);
                if aa < ab {
                    if range_is(&s, sa, sb, "http") {
                        let a = string_of(&s, aa, ab);
                        assert(a@ == address);
                        http = scheme_url(a);
                        assert(scheme == "http"@);
                        assert(proxy_step(server, st, part) == (with_scheme(address), st.1, false));
                    } else if range_is(&s, sa, sb, "https") {
                        let a = string_of(&s, aa, ab);
                        assert(a@ == address);
                        https = scheme_url(a);
                        assert(scheme == "https"@);
                        assert(scheme != "http"@);
                        assert(proxy_step(server, st, part) == (st.0, with_scheme(address), false));
                    } else {
                        assert(scheme != "http"@ && scheme != "https"@);
                        assert(proxy_step(server, st, part) == st);
                    }
                } else {
                    assert(address.len() == 0);
                    assert(proxy_step(server, st, part) == st);
                }
                assert(proxy_step(server, st, part) == (http@, https@, done));
            },
            None => {
                assert(index_of(part, '=') is None);
                assert(!st.2);
                if !http.as_str().is_empty() && !https.as_str().is_empty() {
                    done = true;
                    assert(proxy_step(server, st, part) == (st.0, st.1, true));
                } else {
                    let c1 = server_chars.clone();
                    let c2 = server_chars.clone();
                    assert(c1@ == server && c2@ == server);
                    http = scheme_url(c1);
                    https = scheme_url(c2);
                    done = true;
                    assert(proxy_step(server, st, part) == (with_scheme(server), with_scheme(server), true));
                }
                assert(proxy_step(server, st, part) == (http@, https@, done));
            },
        }
        assert(proxy_fold(server, parts.take(k + 1)) == (http@, https@, done));
        k = k + 1;
        proof {
            if done {
                assert forall|n: int| k <= n <= parts.len() implies #[trigger] proxy_fold(
                    server,
                    parts.take(n),
                ) == (http@, https@, done) by {
                    lemma_fold_stays_done(server, parts, k as int, n);
                }
            }
        }
    }
    proof {
        if !done {
            assert(k == ranges@.len());
        }
        assert(parts.take(parts.len() as int) =~= parts);
    }
    assert(pair_views(out@) =~= Seq::<(Seq<char>, Seq<char>)>::empty());
    if !http.as_str().is_empty() {
        push_pair(&mut out, "HTTP_PROXY", http);
    }
    if !https.as_str().is_empty() {
        push_pair(&mut out, "HTTPS_PROXY", https);
    }
    if out.len() > 0 {
        push_pair(&mut out, "NO_PROXY", String::from_str("localhost,127.0.0.1,::1"));
    }
    out
}

proof fn lemma_fold_stays_done(server: Seq<char>, parts: Seq<Seq<char>>, k: int, n: int)
    requires
        0 <= k <= n <= parts.len(),
        proxy_fold(server, parts.take(k)).2,
    ensures
        proxy_fold(server, parts.take(n)) == proxy_fold(server, parts.take(k)),
    decreases n - k,
{
    if n > k {
        lemma_fold_stays_done(server, parts, k, n - 1);
        assert(parts.take(n).drop_last() =~= parts.take(n - 1));
    }
}


/// Law: loopback traffic is exempted exactly when some proxy is set: the
/// variables are empty, or a proxy variable comes first and `NO_PROXY` last.
pub proof fn law_no_proxy_with_any_proxy(raw: Seq<char>)
    ensures
        proxy_vars(raw).len() == 0 || ({
            let v = proxy_vars(raw);
            &&& v.len() >= 2
            &&& v[0].0 == "HTTP_PROXY"@ || v[0].0 == "HTTPS_PROXY"@
            &&& v.last() == ("NO_PROXY"@, "localhost,127.0.0.1,::1"@)
        }),
{
}


/// The system proxy is handed on only when the environment names no proxy of
/// its own (neither `HTTP_PROXY` nor `HTTPS_PROXY`).
pub fn system_proxy_wanted(http_proxy_set: bool, https_proxy_set: bool) -> (r: bool)
    ensures
        r == (!http_proxy_set && !https_proxy_set),
{
    !http_proxy_set && !https_proxy_set
}

} // verus!
