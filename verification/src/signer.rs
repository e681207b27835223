//! The request signer: builds the authorization header value of the
//! HMAC-SHA1 signing scheme from an HTTP method, a target URL and a set of
//! query parameters.
//!
//! The signature base string, the signing key, the signature and the header
//! are each pinned down by a specification function, so the header is a
//! mathematical function of the inputs once the nonce and the timestamp are
//! fixed.
use crate::crypto::{base64_encode, base64_of, fresh_nonce, hmac_sha1_digest, hmac_sha1_of,
    unix_timestamp_secs};
use crate::encoding::{ascii_to_string, chars_of_ascii, lemma_spec_encode_ascii,
    percent_encode_bytes, spec_encode, u64_to_decimal};
use crate::params::{join_params, join_params_exec, lemma_param_total_ordering,
    lemma_sort_params_is_sort_by, param_order, params_view, sort_params, Param};
use vstd::prelude::*;
use vstd::string::{StrSliceExecFns, StringExecFns, StringSliceAdditionalSpecFns};
use vstd::utf8::encode_utf8;

verus! {

/// One query parameter, as it travels to the wire: the raw value together
/// with its encoded form, so that the signed parameter string and the sent
/// query string cannot fall out of sync.
pub struct QueryParam {
    pub key: String,
    pub value: String,
    pub encoded_value: String,
}

impl QueryParam {
    /// The encoded value is exactly the wire encoding of the raw value.
    pub open spec fn wf(self) -> bool {
        self.encoded_value@ == chars_of_ascii(spec_encode(encode_utf8(self.value@)))
    }

    /// Package a key and a raw value; the value is encoded once, here.
    pub fn new(key: &str, value: &str) -> (r: QueryParam)
        ensures
            r.key@ == key@,
            r.value@ == value@,
            r.wf(),
    {
        let vb = value.as_bytes_vec();
        let enc = percent_encode_bytes(&vb);
        proof {
            lemma_spec_encode_ascii(vb@);
        }
        let encoded_value = ascii_to_string(enc);
        QueryParam { key: key.to_owned(), value: value.to_owned(), encoded_value }
    }
}

/// The raw byte form of the query parameters: UTF-8 bytes of key and value.
pub open spec fn qp_raw(qs: Seq<QueryParam>) -> Seq<(Seq<u8>, Seq<u8>)> {
    qs.map_values(|q: QueryParam| (encode_utf8(q.key@), encode_utf8(q.value@)))
}

/// The query parameters with their values encoded.
pub open spec fn spec_query_part(query: Seq<(Seq<u8>, Seq<u8>)>) -> Seq<(Seq<u8>, Seq<u8>)> {
    query.map_values(|p: (Seq<u8>, Seq<u8>)| (p.0, spec_encode(p.1)))
}

/// The six fixed parameters of the signing scheme, values encoded.
pub open spec fn spec_oauth_part(ck: Seq<u8>, tok: Seq<u8>, nonce: Seq<u8>, ts: Seq<u8>) -> Seq<
    (Seq<u8>, Seq<u8>),
> {
    seq![
        ("oauth_consumer_key".spec_bytes(), spec_encode(ck)),
        ("oauth_nonce".spec_bytes(), spec_encode(nonce)),
        ("oauth_signature_method".spec_bytes(), spec_encode("HMAC-SHA1".spec_bytes())),
        ("oauth_timestamp".spec_bytes(), spec_encode(ts)),
        ("oauth_token".spec_bytes(), spec_encode(tok)),
        ("oauth_version".spec_bytes(), spec_encode("1.0".spec_bytes())),
    ]
}

/// The full parameter set that is signed: the query parameters and the six
/// fixed parameters, every value encoded.
pub open spec fn spec_param_set(
    query: Seq<(Seq<u8>, Seq<u8>)>,
    ck: Seq<u8>,
    tok: Seq<u8>,
    nonce: Seq<u8>,
    ts: Seq<u8>,
) -> Seq<(Seq<u8>, Seq<u8>)> {
    spec_query_part(query) + spec_oauth_part(ck, tok, nonce, ts)
}

/// The signature base string: `METHOD&encode(url)&encode(parameterString)`,
/// the parameter string being the sorted set joined as `key=value` with `&`.
pub open spec fn spec_base_string(method: Seq<u8>, url: Seq<u8>, pset: Seq<(Seq<u8>, Seq<u8>)>) -> Seq<u8> {
    method + seq![38u8] + spec_encode(url) + seq![38u8] + spec_encode(
        join_params(pset.sort_by(param_order())),
    )
}

/// The signing key: `encode(consumerSecret)&encode(tokenSecret)`.
pub open spec fn spec_signing_key(consumer_secret: Seq<u8>, token_secret: Seq<u8>) -> Seq<u8> {
    spec_encode(consumer_secret) + seq![38u8] + spec_encode(token_secret)
}

/// The signature: the HMAC-SHA1 digest of the base string under the signing
/// key, base64-rendered, then encoded once more.
pub open spec fn spec_signature(
    method: Seq<u8>,
    url: Seq<u8>,
    pset: Seq<(Seq<u8>, Seq<u8>)>,
    consumer_secret: Seq<u8>,
    token_secret: Seq<u8>,
) -> Seq<u8> {
    spec_encode(
        base64_of(
            hmac_sha1_of(
                spec_signing_key(consumer_secret, token_secret),
                spec_base_string(method, url, pset),
            ),
        ),
    )
}

/// The authorization header value around a finished signature.
pub open spec fn spec_oauth_header(
    consumer_key: Seq<char>,
    nonce: Seq<char>,
    signature: Seq<char>,
    timestamp: Seq<char>,
    token: Seq<char>,
) -> Seq<char> {
    "OAuth oauth_consumer_key="@ + consumer_key + ",oauth_nonce="@ + nonce + ",oauth_signature="@
        + signature + ",oauth_signature_method=HMAC-SHA1,oauth_timestamp="@ + timestamp
        + ",oauth_token="@ + token + ",oauth_version=1.0"@
}

/// The header that `build_oauth_signature_with` returns for these inputs.
pub open spec fn spec_signed_header(
    oauth_token: Seq<char>,
    oauth_token_secret: Seq<char>,
    consumer_key: Seq<char>,
    consumer_secret: Seq<char>,
    target_endpoint: Seq<char>,
    request_method: Seq<char>,
    query: Seq<(Seq<u8>, Seq<u8>)>,
    nonce: Seq<char>,
    timestamp: Seq<char>,
) -> Seq<char> {
    spec_oauth_header(
        consumer_key,
        nonce,
        chars_of_ascii(
            spec_signature(
                encode_utf8(request_method),
                encode_utf8(target_endpoint),
                spec_param_set(
                    query,
                    encode_utf8(consumer_key),
                    encode_utf8(oauth_token),
                    encode_utf8(nonce),
                    encode_utf8(timestamp),
                ),
                encode_utf8(consumer_secret),
                encode_utf8(oauth_token_secret),
            ),
        ),
        timestamp,
        oauth_token,
    )
}

/// A parameter made of a key and the encoding of a raw value.
fn raw_param(key: &str, value: &str) -> (p: Param)
    ensures
        p@ == (key.spec_bytes(), spec_encode(value.spec_bytes())),
{
    let vb = value.as_bytes_vec();
    Param { key: key.as_bytes_vec(), value: percent_encode_bytes(&vb) }
}

/// Build the authorization header value for the given request, with the
/// nonce and timestamp supplied by the caller.  The result is a function of
/// the arguments alone.
pub fn build_oauth_signature_with(
    oauth_token: &str,
    oauth_token_secret: &str,
    consumer_key: &str,
    consumer_secret: &str,
    target_endpoint: &str,
    request_method: &str,
    query_params: &Vec<QueryParam>,
    oauth_nonce: &str,
    oauth_timestamp: &str,
) -> (r: String)
    ensures
        r@ == spec_signed_header(
            oauth_token@,
            oauth_token_secret@,
            consumer_key@,
            consumer_secret@,
            target_endpoint@,
            request_method@,
            qp_raw(query_params@),
            oauth_nonce@,
            oauth_timestamp@,
        ),
{
    let ghost qv = spec_query_part(qp_raw(query_params@));
    // the parameter set, query parameters first, then the fixed six
    let mut set: Vec<Param> = Vec::new();
    let mut i: usize = 0;
    proof {
        assert(params_view(set@) =~= qv.take(0));
    }
    while i < query_params.len()
        invariant
            i <= query_params@.len(),
            qv == spec_query_part(qp_raw(query_params@)),
            params_view(set@) == qv.take(i as int),
        decreases query_params@.len() - i,
    {
        let q = &query_params[i];
        let p = raw_param(q.key.as_str(), q.value.as_str());
        let ghost set_pre = set@;
        set.push(p);
        proof {
            assert(set@ == set_pre.push(p));
            assert(qv.len() == query_params@.len());
            assert(params_view(set_pre).len() == set_pre.len());
            assert(set_pre.len() == i as int);
            assert(set@.len() == set_pre.len() + 1);
            assert(qp_raw(query_params@)[i as int] == (
                encode_utf8(query_params@[i as int].key@),
                encode_utf8(query_params@[i as int].value@),
            ));
            assert(qv[i as int] == (
                encode_utf8(query_params@[i as int].key@),
                spec_encode(encode_utf8(query_params@[i as int].value@)),
            ));
            assert forall|k: int| 0 <= k < set@.len() implies params_view(set@)[k] == qv.take(
                i as int + 1,
            )[k] by {
                assert(params_view(set@)[k] == set@[k]@);
                if k < i as int {
                    assert(set@[k] == set_pre[k]);
                    assert(params_view(set_pre)[k] == set_pre[k]@);
                    assert(params_view(set_pre)[k] == qv.take(i as int)[k]);
                } else {
                    assert(set@[k] == p);
                }
            }
            assert(params_view(set@) =~= qv.take(i as int + 1));
        }
        i = i + 1;
    }
    let ghost n = query_params@.len() as int;
    let ghost set_q = set@;
    let p1 = raw_param("oauth_consumer_key", consumer_key);
    set.push(p1);
    let p2 = raw_param("oauth_nonce", oauth_nonce);
    set.push(p2);
    let p3 = raw_param("oauth_signature_method", "HMAC-SHA1");
    set.push(p3);
    let p4 = raw_param("oauth_timestamp", oauth_timestamp);
    set.push(p4);
    let p5 = raw_param("oauth_token", oauth_token);
    set.push(p5);
    let p6 = raw_param("oauth_version", "1.0");
    set.push(p6);
    let ghost pset = spec_param_set(
        qp_raw(query_params@),
        encode_utf8(consumer_key@),
        encode_utf8(oauth_token@),
        encode_utf8(oauth_nonce@),
        encode_utf8(oauth_timestamp@),
    );
    proof {
        assert(qv.take(n) =~= qv);
        assert(set@ =~= set_q + seq![p1, p2, p3, p4, p5, p6]);
        let oauth = spec_oauth_part(
            encode_utf8(consumer_key@),
            encode_utf8(oauth_token@),
            encode_utf8(oauth_nonce@),
            encode_utf8(oauth_timestamp@),
        );
        assert forall|k: int| 0 <= k < set@.len() implies params_view(set@)[k] == pset[k] by {
            assert(params_view(set@)[k] == set@[k]@);
            if k < n {
                assert(set@[k] == set_q[k]);
                assert(params_view(set_q)[k] == set_q[k]@);
                assert(params_view(set_q)[k] == qv[k]);
            } else {
                assert(pset[k] == oauth[k - n]);
                if k == n {
                    assert(set@[k] == p1);
                } else if k == n + 1 {
                    assert(set@[k] == p2);
                } else if k == n + 2 {
                    assert(set@[k] == p3);
                } else if k == n + 3 {
                    assert(set@[k] == p4);
                } else if k == n + 4 {
                    assert(set@[k] == p5);
                } else {
                    assert(set@[k] == p6);
                }
            }
        }
        assert(params_view(set@) =~= pset);
    }
    // sort and join into the parameter string
    let sorted = sort_params(set);
    proof {
        lemma_sort_params_is_sort_by(params_view(sorted@), pset);
    }
    let param_string = join_params_exec(&sorted);
    // the signature base string
    let mut base: Vec<u8> = request_method.as_bytes_vec();
    base.push(38);
    let url_b = target_endpoint.as_bytes_vec();
    let mut enc_url = percent_encode_bytes(&url_b);
    base.append(&mut enc_url);
    base.push(38);
    let mut enc_ps = percent_encode_bytes(&param_string);
    base.append(&mut enc_ps);
    proof {
        assert(base@ =~= spec_base_string(
            encode_utf8(request_method@),
            encode_utf8(target_endpoint@),
            pset,
        ));
    }
    // the signing key
    let cs_b = consumer_secret.as_bytes_vec();
    let mut key = percent_encode_bytes(&cs_b);
    key.push(38);
    let tsec_b = oauth_token_secret.as_bytes_vec();
    let mut enc_tsec = percent_encode_bytes(&tsec_b);
    key.append(&mut enc_tsec);
    proof {
        assert(key@ =~= spec_signing_key(
            encode_utf8(consumer_secret@),
            encode_utf8(oauth_token_secret@),
        ));
    }
    // sign
    let digest = hmac_sha1_digest(&key, &base);
    let sig64 = base64_encode(&digest);
    let enc_sig = percent_encode_bytes(&sig64);
    proof {
        lemma_spec_encode_ascii(sig64@);
    }
    let sig_str = ascii_to_string(enc_sig);
    // the header around the signature
    let mut header = String::new();
    header.append("OAuth oauth_consumer_key=");
    header.append(consumer_key);
    header.append(",oauth_nonce=");
    header.append(oauth_nonce);
    header.append(",oauth_signature=");
    header.append(sig_str.as_str());
    header.append(",oauth_signature_method=HMAC-SHA1,oauth_timestamp=");
    header.append(oauth_timestamp);
    header.append(",oauth_token=");
    header.append(oauth_token);
    header.append(",oauth_version=1.0");
    proof {
        assert(header@ =~= spec_oauth_header(
            consumer_key@,
            oauth_nonce@,
            chars_of_ascii(
                spec_signature(
                    encode_utf8(request_method@),
                    encode_utf8(target_endpoint@),
                    pset,
                    encode_utf8(consumer_secret@),
                    encode_utf8(oauth_token_secret@),
                ),
            ),
            oauth_timestamp@,
            oauth_token@,
        ));
    }
    header
}

/// Build the authorization header value for the given request, generating a
/// fresh nonce and the current timestamp.  Whatever nonce and timestamp came
/// out, the result is the signed header for them.
pub fn build_oauth_signature(
    oauth_token: &str,
    oauth_token_secret: &str,
    consumer_key: &str,
    consumer_secret: &str,
    target_endpoint: &str,
    request_method: &str,
    query_params: &Vec<QueryParam>,
) -> (r: String)
    ensures
        exists|nonce: Seq<char>, timestamp: Seq<char>|
            r@ == spec_signed_header(
                oauth_token@,
                oauth_token_secret@,
                consumer_key@,
                consumer_secret@,
                target_endpoint@,
                request_method@,
                qp_raw(query_params@),
                nonce,
                timestamp,
            ),
{
    let nonce = fresh_nonce();
    let seconds = unix_timestamp_secs();
    let timestamp = u64_to_decimal(seconds);
    let r = build_oauth_signature_with(
        oauth_token,
        oauth_token_secret,
        consumer_key,
        consumer_secret,
        target_endpoint,
        request_method,
        query_params,
        nonce.as_str(),
        timestamp.as_str(),
    );
    proof {
        let n = nonce@;
        let t = timestamp@;
        assert(r@ == spec_signed_header(
            oauth_token@,
            oauth_token_secret@,
            consumer_key@,
            consumer_secret@,
            target_endpoint@,
            request_method@,
            qp_raw(query_params@),
            n,
            t,
        ));
    }
    r
}

/// Two query-parameter sequences that hold the same parameters, in any
/// order, yield the same signature base string: the sort makes the base
/// string independent of insertion order.
pub proof fn lemma_param_order_irrelevant(
    q1: Seq<(Seq<u8>, Seq<u8>)>,
    q2: Seq<(Seq<u8>, Seq<u8>)>,
    ck: Seq<u8>,
    tok: Seq<u8>,
    nonce: Seq<u8>,
    ts: Seq<u8>,
    method: Seq<u8>,
    url: Seq<u8>,
)
    requires
        q1.to_multiset() == q2.to_multiset(),
    ensures
        spec_base_string(method, url, spec_param_set(q1, ck, tok, nonce, ts)) == spec_base_string(
            method,
            url,
            spec_param_set(q2, ck, tok, nonce, ts),
        ),
{
    broadcast use vstd::multiset::group_multiset_axioms;

    let f = |p: (Seq<u8>, Seq<u8>)| (p.0, spec_encode(p.1));
    crate::params::lemma_map_values_multiset(q1, q2, f);
    assert(spec_query_part(q1) =~= q1.map_values(f));
    assert(spec_query_part(q2) =~= q2.map_values(f));
    let oauth = spec_oauth_part(ck, tok, nonce, ts);
    let p1 = spec_param_set(q1, ck, tok, nonce, ts);
    let p2 = spec_param_set(q2, ck, tok, nonce, ts);
    vstd::seq_lib::lemma_multiset_commutative(spec_query_part(q1), oauth);
    vstd::seq_lib::lemma_multiset_commutative(spec_query_part(q2), oauth);
    assert(p1.to_multiset() =~= p2.to_multiset());
    lemma_param_total_ordering();
    p1.lemma_sort_by_ensures(param_order());
    p2.lemma_sort_by_ensures(param_order());
    vstd::seq_lib::lemma_sorted_unique(
        p1.sort_by(param_order()),
        p2.sort_by(param_order()),
        param_order(),
    );
}

/// With the nonce and the timestamp fixed, two query-parameter sets that
/// hold the same parameters in any order yield the same signed header.
pub proof fn lemma_header_order_irrelevant(
    q1: Seq<(Seq<u8>, Seq<u8>)>,
    q2: Seq<(Seq<u8>, Seq<u8>)>,
    oauth_token: Seq<char>,
    oauth_token_secret: Seq<char>,
    consumer_key: Seq<char>,
    consumer_secret: Seq<char>,
    target_endpoint: Seq<char>,
    request_method: Seq<char>,
    nonce: Seq<char>,
    timestamp: Seq<char>,
)
    requires
        q1.to_multiset() == q2.to_multiset(),
    ensures
        spec_signed_header(
            oauth_token,
            oauth_token_secret,
            consumer_key,
            consumer_secret,
            target_endpoint,
            request_method,
            q1,
            nonce,
            timestamp,
        ) == spec_signed_header(
            oauth_token,
            oauth_token_secret,
            consumer_key,
            consumer_secret,
            target_endpoint,
            request_method,
            q2,
            nonce,
            timestamp,
        ),
{
    lemma_param_order_irrelevant(
        q1,
        q2,
        encode_utf8(consumer_key),
        encode_utf8(oauth_token),
        encode_utf8(nonce),
        encode_utf8(timestamp),
        encode_utf8(request_method),
        encode_utf8(target_endpoint),
    );
}

/// Re-running the signer with the same inputs and the same fixed nonce and
/// timestamp yields the same header: the header is a function of its inputs.
pub proof fn lemma_signer_deterministic(
    r1: Seq<char>,
    r2: Seq<char>,
    oauth_token: Seq<char>,
    oauth_token_secret: Seq<char>,
    consumer_key: Seq<char>,
    consumer_secret: Seq<char>,
    target_endpoint: Seq<char>,
    request_method: Seq<char>,
    query: Seq<(Seq<u8>, Seq<u8>)>,
    nonce: Seq<char>,
    timestamp: Seq<char>,
)
    requires
        r1 == spec_signed_header(
            oauth_token,
            oauth_token_secret,
            consumer_key,
            consumer_secret,
            target_endpoint,
            request_method,
            query,
            nonce,
            timestamp,
        ),
        r2 == spec_signed_header(
            oauth_token,
            oauth_token_secret,
            consumer_key,
            consumer_secret,
            target_endpoint,
            request_method,
            query,
            nonce,
            timestamp,
        ),
    ensures
        r1 == r2,
{
}

} // verus!
