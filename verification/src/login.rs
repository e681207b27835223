//! The credential-exchange parsing of the login flow.
//!
//! Token endpoints answer with `key=value` pairs joined by `&`.  This module
//! splits such a body, looks fields up (a repeated key keeps its last
//! value), and assembles the final user credential; expected fields that are
//! absent surface as `CredentialExchangeFailed`.
use crate::error::DtaError;
use crate::twitter_client::TwitterAppUserCredential;
use vstd::prelude::*;
use vstd::string::{StrSliceExecFns, StringExecFns};
use vstd::utf8::encode_utf8;

verus! {

/// The index of the first occurrence of `c`, or the length when absent.
pub open spec fn find_idx(s: Seq<char>, c: char) -> int
    decreases s.len(),
{
    if s.len() == 0 {
        0
    } else if s[0] == c {
        0
    } else {
        1 + find_idx(s.skip(1), c)
    }
}

/// What `find_idx` finds: the first occurrence, within bounds.
pub proof fn lemma_find_idx(s: Seq<char>, c: char)
    ensures
        0 <= find_idx(s, c) <= s.len(),
        find_idx(s, c) < s.len() ==> s[find_idx(s, c)] == c,
        forall|k: int| 0 <= k < find_idx(s, c) ==> s[k] != c,
    decreases s.len(),
{
    if s.len() > 0 && s[0] != c {
        lemma_find_idx(s.skip(1), c);
        assert forall|k: int| 0 <= k < find_idx(s, c) implies s[k] != c by {
            if k > 0 {
                assert(s.skip(1)[k - 1] == s[k]);
            }
        }
    }
}

/// A position that carries the first occurrence is what `find_idx` returns.
pub proof fn lemma_find_idx_is(s: Seq<char>, c: char, f: int)
    requires
        0 <= f <= s.len(),
        f < s.len() ==> s[f] == c,
        forall|k: int| 0 <= k < f ==> s[k] != c,
    ensures
        find_idx(s, c) == f,
    decreases s.len(),
{
    if s.len() == 0 {
    } else if s[0] == c {
        assert(f == 0);
    } else {
        assert(f >= 1);
        assert forall|k: int| 0 <= k < f - 1 implies s.skip(1)[k] != c by {
            assert(s.skip(1)[k] == s[k + 1]);
        }
        assert(f - 1 < s.skip(1).len() ==> s.skip(1)[f - 1] == c);
        lemma_find_idx_is(s.skip(1), c, f - 1);
    }
}

/// The segments of `s` between occurrences of `sep`: always at least one
/// segment, empty segments kept.
pub open spec fn split_on(s: Seq<char>, sep: char) -> Seq<Seq<char>>
    decreases s.len(),
{
    if s.len() == 0 {
        seq![Seq::<char>::empty()]
    } else if s[0] == sep {
        seq![Seq::<char>::empty()] + split_on(s.skip(1), sep)
    } else {
        let r = split_on(s.skip(1), sep);
        seq![seq![s[0]] + r[0]] + r.skip(1)
    }
}

/// A split always yields at least one segment.
pub proof fn lemma_split_on_len(s: Seq<char>, sep: char)
    ensures
        split_on(s, sep).len() >= 1,
    decreases s.len(),
{
    if s.len() > 0 {
        lemma_split_on_len(s.skip(1), sep);
    }
}

/// The character contents of a list of strings.
pub open spec fn strings_view(v: Seq<String>) -> Seq<Seq<char>> {
    v.map_values(|x: String| x@)
}

/// Whether two string slices hold the same characters.
fn str_eq(a: &str, b: &str) -> (r: bool)
    ensures
        r == (a@ == b@),
{
    let av = a.as_bytes_vec();
    let bv = b.as_bytes_vec();
    if av.len() != bv.len() {
        proof {
            assert(av@ != bv@);
        }
        return false;
    }
    let mut i: usize = 0;
    while i < av.len()
        invariant
            i <= av@.len(),
            av@.len() == bv@.len(),
            av@ == encode_utf8(a@),
            bv@ == encode_utf8(b@),
            forall|k: int| 0 <= k < i ==> av@[k] == bv@[k],
        decreases av@.len() - i,
    {
        if av[i] != bv[i] {
            proof {
                assert(av@ != bv@);
            }
            return false;
        }
        i = i + 1;
    }
    proof {
        assert(av@ =~= bv@);
        vstd::utf8::encode_utf8_decode_utf8(a@);
        vstd::utf8::encode_utf8_decode_utf8(b@);
    }
    true
}

/// The index of the first occurrence of `c` in `s`, or the character length
/// of `s` when absent.
fn find_char(s: &str, c: char) -> (r: usize)
    ensures
        r as int == find_idx(s@, c),
{
    let n = s.unicode_len();
    let mut i: usize = 0;
    while i < n
        invariant
            i <= n,
            n == s@.len(),
            forall|k: int| 0 <= k < i ==> s@[k] != c,
        decreases n - i,
    {
        if s.get_char(i) == c {
            proof {
                lemma_find_idx_is(s@, c, i as int);
            }
            return i;
        }
        i = i + 1;
    }
    proof {
        lemma_find_idx_is(s@, c, n as int);
    }
    n
}

/// Split a string on a separator character, keeping empty segments.
pub fn split_on_exec(s: &str, sep: char) -> (r: Vec<String>)
    ensures
        strings_view(r@) == split_on(s@, sep),
{
    let n = s.unicode_len();
    let mut segs: Vec<String> = Vec::new();
    segs.push(String::new());
    let mut i: usize = n;
    proof {
        assert(s@.skip(n as int) =~= Seq::<char>::empty());
        assert(strings_view(segs@) =~= split_on(s@.skip(n as int), sep));
    }
    while i > 0
        invariant
            i <= n,
            n == s@.len(),
            segs@.len() >= 1,
            strings_view(segs@) == split_on(s@.skip(i as int), sep),
        decreases i,
    {
        let ghost tail_pre = s@.skip(i as int);
        let ghost r_pre = split_on(tail_pre, sep);
        let c = s.get_char(i - 1);
        proof {
            assert(s@.skip(i as int - 1)[0] == s@[i as int - 1]);
            assert(s@.skip(i as int - 1).skip(1) =~= tail_pre);
            assert(s@.skip(i as int - 1).len() > 0);
        }
        if c == sep {
            let ghost segs_pre = segs@;
            segs.insert(0, String::new());
            proof {
                assert(segs@ =~= segs_pre.insert(0, segs@[0]));
                assert(split_on(s@.skip(i as int - 1), sep) == seq![Seq::<char>::empty()]
                    + r_pre);
                assert(strings_view(segs@) =~= seq![Seq::<char>::empty()] + strings_view(
                    segs_pre,
                ));
            }
        } else {
            let head = s.substring_char(i - 1, i);
            let mut new_first = head.to_owned();
            let old_first = segs.remove(0);
            new_first.append(old_first.as_str());
            let ghost segs_mid = segs@;
            segs.insert(0, new_first);
            proof {
                lemma_split_on_len(tail_pre, sep);
                assert(head@ =~= seq![s@[i as int - 1]]);
                assert(new_first@ == seq![s@[i as int - 1]] + old_first@);
                assert(old_first@ == r_pre[0]);
                assert(split_on(s@.skip(i as int - 1), sep) == seq![seq![s@[i as int - 1]]
                    + r_pre[0]] + r_pre.skip(1));
                assert(strings_view(segs@) =~= seq![new_first@] + strings_view(segs_mid));
                assert(strings_view(segs_mid) =~= strings_view(segs@.skip(1)));
                assert(strings_view(segs@) =~= split_on(s@.skip(i as int - 1), sep));
            }
        }
        i = i - 1;
    }
    proof {
        assert(s@.skip(0) =~= s@);
    }
    segs
}

/// The key/value reading of one segment: `None` without `=`; otherwise the
/// text before the first `=` and the text between the first and the second
/// `=` (or the end).
pub open spec fn spec_parse_pair(seg: Seq<char>) -> Option<(Seq<char>, Seq<char>)> {
    let f = find_idx(seg, '=');
    if f == seg.len() {
        None
    } else {
        let rest = seg.skip(f + 1);
        let g = find_idx(rest, '=');
        Some((seg.take(f), rest.take(g)))
    }
}

/// Read one `key=value` segment.
pub fn parse_pair(seg: &str) -> (r: Option<(String, String)>)
    ensures
        match spec_parse_pair(seg@) {
            Some(p) => r matches Some(q) && q.0@ == p.0 && q.1@ == p.1,
            None => r is None,
        },
{
    let n = seg.unicode_len();
    let f = find_char(seg, '=');
    proof {
        lemma_find_idx(seg@, '=');
    }
    if f == n {
        return None;
    }
    let key = seg.substring_char(0, f).to_owned();
    let rest = seg.substring_char(f + 1, n);
    proof {
        assert(rest@ =~= seg@.skip(f as int + 1));
        lemma_find_idx(rest@, '=');
    }
    let g = find_char(rest, '=');
    let value = rest.substring_char(0, g).to_owned();
    proof {
        assert(key@ =~= seg@.take(f as int));
        assert(value@ =~= rest@.take(g as int));
    }
    Some((key, value))
}

/// The pairs of a whole body: each segment that parses, in order.
pub open spec fn spec_pairs_of_segs(segs: Seq<Seq<char>>) -> Seq<(Seq<char>, Seq<char>)>
    decreases segs.len(),
{
    if segs.len() == 0 {
        Seq::empty()
    } else {
        let rest = spec_pairs_of_segs(segs.skip(1));
        match spec_parse_pair(segs[0]) {
            Some(p) => seq![p] + rest,
            None => rest,
        }
    }
}

/// Reading pairs distributes over concatenation of segment lists.
pub proof fn lemma_pairs_of_segs_concat(a: Seq<Seq<char>>, b: Seq<Seq<char>>)
    ensures
        spec_pairs_of_segs(a + b) == spec_pairs_of_segs(a) + spec_pairs_of_segs(b),
    decreases a.len(),
{
    if a.len() == 0 {
        assert(a + b =~= b);
        assert(spec_pairs_of_segs(a) + spec_pairs_of_segs(b) =~= spec_pairs_of_segs(b));
    } else {
        assert((a + b).skip(1) =~= a.skip(1) + b);
        lemma_pairs_of_segs_concat(a.skip(1), b);
        assert((a + b)[0] == a[0]);
        match spec_parse_pair(a[0]) {
            Some(p) => {
                assert(seq![p] + (spec_pairs_of_segs(a.skip(1)) + spec_pairs_of_segs(b)) =~= (
                seq![p] + spec_pairs_of_segs(a.skip(1))) + spec_pairs_of_segs(b));
            },
            None => {
            },
        }
    }
}

/// The character contents of a list of string pairs.
pub open spec fn pairs_view(v: Seq<(String, String)>) -> Seq<(Seq<char>, Seq<char>)> {
    v.map_values(|p: (String, String)| (p.0@, p.1@))
}

/// The pairs of a `key=value`-with-`&` body.
pub open spec fn spec_pairs(body: Seq<char>) -> Seq<(Seq<char>, Seq<char>)> {
    spec_pairs_of_segs(split_on(body, '&'))
}

/// Split a response body into its `key=value` pairs, in order; segments
/// without `=` are skipped.
pub fn parse_form_pairs(body: &str) -> (r: Vec<(String, String)>)
    ensures
        pairs_view(r@) == spec_pairs(body@),
{
    let segs = split_on_exec(body, '&');
    let ghost sv = strings_view(segs@);
    let mut out: Vec<(String, String)> = Vec::new();
    let mut i: usize = 0;
    proof {
        assert(sv.take(0) =~= Seq::<Seq<char>>::empty());
        assert(pairs_view(out@) =~= spec_pairs_of_segs(sv.take(0)));
    }
    while i < segs.len()
        invariant
            i <= segs@.len(),
            sv == strings_view(segs@),
            sv == split_on(body@, '&'),
            pairs_view(out@) == spec_pairs_of_segs(sv.take(i as int)),
        decreases segs@.len() - i,
    {
        let ghost out_pre = out@;
        proof {
            assert(sv[i as int] == segs@[i as int]@);
            assert(sv.take(i as int + 1) =~= sv.take(i as int) + seq![sv[i as int]]);
            lemma_pairs_of_segs_concat(sv.take(i as int), seq![sv[i as int]]);
            assert(seq![sv[i as int]].skip(1) =~= Seq::<Seq<char>>::empty());
            assert(spec_pairs_of_segs(Seq::<Seq<char>>::empty()) =~= Seq::<
                (Seq<char>, Seq<char>),
            >::empty());
            assert(seq![sv[i as int]][0] == sv[i as int]);
            match spec_parse_pair(sv[i as int]) {
                Some(p) => {
                    assert(spec_pairs_of_segs(seq![sv[i as int]]) =~= seq![p]);
                },
                None => {
                    assert(spec_pairs_of_segs(seq![sv[i as int]]) =~= Seq::<
                        (Seq<char>, Seq<char>),
                    >::empty());
                },
            }
        }
        match parse_pair(segs[i].as_str()) {
            Some(p) => {
                out.push(p);
                proof {
                    assert(pairs_view(out@) =~= pairs_view(out_pre) + seq![
                        (out@[out@.len() - 1].0@, out@[out@.len() - 1].1@),
                    ]);
                    assert(pairs_view(out@) =~= spec_pairs_of_segs(sv.take(i as int + 1)));
                }
            },
            None => {
                proof {
                    assert(spec_pairs_of_segs(sv.take(i as int + 1)) =~= spec_pairs_of_segs(
                        sv.take(i as int),
                    ) + Seq::<(Seq<char>, Seq<char>)>::empty());
                    assert(pairs_view(out@) =~= spec_pairs_of_segs(sv.take(i as int + 1)));
                }
            },
        }
        i = i + 1;
    }
    proof {
        assert(sv.take(segs@.len() as int) =~= sv);
    }
    out
}

/// The value of the last pair with this key, if any: a repeated key keeps
/// its last value.
pub open spec fn spec_lookup(pairs: Seq<(Seq<char>, Seq<char>)>, key: Seq<char>) -> Option<
    Seq<char>,
>
    decreases pairs.len(),
{
    if pairs.len() == 0 {
        None
    } else if pairs[pairs.len() - 1].0 == key {
        Some(pairs[pairs.len() - 1].1)
    } else {
        spec_lookup(pairs.drop_last(), key)
    }
}

/// Look a key up among parsed pairs; the last occurrence wins.
pub fn lookup_field(pairs: &Vec<(String, String)>, key: &str) -> (r: Option<String>)
    ensures
        match spec_lookup(pairs_view(pairs@), key@) {
            Some(v) => r matches Some(s) && s@ == v,
            None => r is None,
        },
{
    let ghost pv = pairs_view(pairs@);
    let mut i: usize = pairs.len();
    proof {
        assert(pv.take(pairs@.len() as int) =~= pv);
    }
    while i > 0
        invariant
            i <= pairs@.len(),
            pv == pairs_view(pairs@),
            spec_lookup(pv, key@) == spec_lookup(pv.take(i as int), key@),
        decreases i,
    {
        proof {
            assert(pv.take(i as int)[i as int - 1] == pv[i as int - 1]);
            assert(pv[i as int - 1] == (pairs@[i as int - 1].0@, pairs@[i as int - 1].1@));
        }
        if str_eq(pairs[i - 1].0.as_str(), key) {
            return Some(pairs[i - 1].1.clone());
        }
        proof {
            assert(pv.take(i as int).drop_last() =~= pv.take(i as int - 1));
        }
        i = i - 1;
    }
    proof {
        assert(pv.take(0).len() == 0);
    }
    None
}

/// The field a token response carries under this key, if any.
pub open spec fn spec_token_field(body: Seq<char>, key: Seq<char>) -> Option<Seq<char>> {
    spec_lookup(spec_pairs(body), key)
}

/// Read the temporary token out of a request-token response: `Ok` exactly
/// when the body carries an `oauth_token` field.
pub fn parse_request_token(body: &str) -> (r: Result<String, DtaError>)
    ensures
        match spec_token_field(body@, "oauth_token"@) {
            Some(t) => r matches Ok(s) && s@ == t,
            None => r matches Err(e) && e is CredentialExchangeFailed,
        },
{
    let pairs = parse_form_pairs(body);
    match lookup_field(&pairs, "oauth_token") {
        Some(v) => Ok(v),
        None => Err(DtaError::CredentialExchangeFailed),
    }
}

/// Assemble the final user credential from the access-token response: `Ok`
/// exactly when the body carries both `oauth_token` and
/// `oauth_token_secret`, with the looked-up user id and username.
pub fn complete_login(username: &str, user_id: &str, body: &str) -> (r: Result<
    TwitterAppUserCredential,
    DtaError,
>)
    ensures
        match (
            spec_token_field(body@, "oauth_token"@),
            spec_token_field(body@, "oauth_token_secret"@),
        ) {
            (Some(t), Some(sec)) => r matches Ok(c) && c.username@ == username@ && c.id@
                == user_id@ && c.oauth_token@ == t && c.oauth_token_secret@ == sec,
            _ => r matches Err(e) && e is CredentialExchangeFailed,
        },
{
    let pairs = parse_form_pairs(body);
    let oauth_token = match lookup_field(&pairs, "oauth_token") {
        Some(v) => v,
        None => {
            return Err(DtaError::CredentialExchangeFailed);
        },
    };
    let oauth_token_secret = match lookup_field(&pairs, "oauth_token_secret") {
        Some(v) => v,
        None => {
            return Err(DtaError::CredentialExchangeFailed);
        },
    };
    Ok(
        TwitterAppUserCredential {
            username: username.to_owned(),
            id: user_id.to_owned(),
            oauth_token,
            oauth_token_secret,
        },
    )
}

} // verus!
