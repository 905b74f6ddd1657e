//! OAuth 1.0a request signing (HMAC-SHA1).
use vstd::prelude::*;
use vstd::string::*;
use vstd::utf8::*;
use crate::config::Config;
use crate::error::Error;
use crate::sign::{
    base64_encode, base64_of, current_timestamp_u64, fresh_id, hmac_sha1, hmac_sha1_of, is_http_method,
    is_id_char, is_token_char, pct, percent_encode, to_uppercase, upper_of,
};
use crate::text::{decimal, owned, push_decimal};

verus! {

pub type Pair = (Seq<char>, Seq<char>);

/// `key=value`, both percent-encoded: the form used for signing.
pub open spec fn encoded_pair(p: Pair) -> Seq<char> {
    pct(p.0) + "="@ + pct(p.1)
}

/// `key="value"`, both percent-encoded: the form used in the header.
pub open spec fn header_pair(p: Pair) -> Seq<char> {
    pct(p.0) + "=\""@ + pct(p.1) + "\""@
}

/// `key=value` with only the value percent-encoded: the form used in the query.
pub open spec fn query_pair(p: Pair) -> Seq<char> {
    p.0 + "="@ + pct(p.1)
}

/// The parts joined with a separator between each two.
pub open spec fn join(parts: Seq<Seq<char>>, sep: Seq<char>) -> Seq<char>
    decreases parts.len(),
{
    if parts.len() == 0 {
        Seq::empty()
    } else if parts.len() == 1 {
        parts[0]
    } else {
        join(parts.drop_last(), sep) + sep + parts.last()
    }
}

/// Lexicographic order of texts by code point, which is the byte order of
/// their UTF-8 encodings.
pub open spec fn text_lt(a: Seq<char>, b: Seq<char>) -> bool
    decreases a.len(),
{
    if a.len() == 0 {
        b.len() > 0
    } else if b.len() == 0 {
        false
    } else if a[0] != b[0] {
        (a[0] as u32) < (b[0] as u32)
    } else {
        text_lt(a.drop_first(), b.drop_first())
    }
}

/// The first position at or after `i` whose text comes after `x`.
pub open spec fn insert_pos(s: Seq<Seq<char>>, x: Seq<char>, i: int) -> int
    decreases s.len() - i,
{
    if i < 0 || i >= s.len() {
        s.len() as int
    } else if text_lt(x, s[i]) {
        i
    } else {
        insert_pos(s, x, i + 1)
    }
}

/// The texts in ascending order, equal ones kept in their order.
pub open spec fn sort_texts(s: Seq<Seq<char>>) -> Seq<Seq<char>>
    decreases s.len(),
{
    if s.len() == 0 {
        s
    } else {
        let rest = sort_texts(s.drop_last());
        rest.insert(insert_pos(rest, s.last(), 0), s.last())
    }
}

/// One request parameter.
#[derive(Debug)]
pub struct Parameter {
    pub key: String,
    pub value: String,
}

impl Clone for Parameter {
    fn clone(&self) -> (r: Self)
        ensures
            r == *self,
    {
        Parameter { key: self.key.clone(), value: self.value.clone() }
    }
}

impl View for Parameter {
    type V = Pair;

    open spec fn view(&self) -> Pair {
        (self.key@, self.value@)
    }
}

pub open spec fn pairs_of(v: Seq<Parameter>) -> Seq<Pair> {
    v.map_values(|p: Parameter| p@)
}

pub open spec fn encoded_pairs(s: Seq<Pair>) -> Seq<Seq<char>> {
    s.map_values(|p: Pair| encoded_pair(p))
}

pub open spec fn header_pairs(s: Seq<Pair>) -> Seq<Seq<char>> {
    s.map_values(|p: Pair| header_pair(p))
}

pub open spec fn query_pairs(s: Seq<Pair>) -> Seq<Seq<char>> {
    s.map_values(|p: Pair| query_pair(p))
}

impl Parameter {
    pub fn new(key: &str, value: &str) -> (r: Parameter)
        ensures
            r@ == (key@, value@),
    {
        Parameter { key: owned(key), value: owned(value) }
    }

    /// The key and the value as they are.
    pub fn as_http_query(&self) -> (r: (&str, &str))
        ensures
            r.0@ == self.key@,
            r.1@ == self.value@,
    {
        (self.key.as_str(), self.value.as_str())
    }
}

/// The two written forms of a request parameter: `key=value` for signing and
/// queries, `key="value"` for the authorization header.
pub trait ParameterConvertible {
    spec fn pair(&self) -> Pair;

    /// `key=value`, both percent-encoded.
    fn as_percent_encoding(&self) -> (r: String)
        ensures
            r@ == encoded_pair(self.pair()),
    ;

    /// `key="value"`, both percent-encoded.
    fn as_http_parameter(&self) -> (r: String)
        ensures
            r@ == header_pair(self.pair()),
    ;
}

impl ParameterConvertible for Parameter {
    open spec fn pair(&self) -> Pair {
        self@
    }

    fn as_percent_encoding(&self) -> (r: String) {
        let mut s = percent_encode(self.key.as_str());
        s.append("=");
        s.append(percent_encode(self.value.as_str()).as_str());
        s
    }

    fn as_http_parameter(&self) -> (r: String) {
        let mut s = percent_encode(self.key.as_str());
        s.append("=\"");
        s.append(percent_encode(self.value.as_str()).as_str());
        s.append("\"");
        s
    }
}

/// The oauth_* parameters other than the signature.
pub struct OAuthParameters {
    pub consumer_key: Parameter,
    pub nonce: Parameter,
    pub signature_method: Parameter,
    pub timestamp: Parameter,
    pub token: Parameter,
    pub version: Parameter,
}

impl OAuthParameters {
    pub open spec fn view(&self) -> Seq<Pair> {
        seq![
            self.consumer_key@,
            self.nonce@,
            self.signature_method@,
            self.timestamp@,
            self.token@,
            self.version@,
        ]
    }

    /// The parameters with a given nonce and timestamp.
    pub fn with_nonce_and_timestamp(consumer_key: &str, token: &str, version: &str, nonce: &str, timestamp: &str) -> (r:
        OAuthParameters)
        ensures
            r.view() == seq![
                ("oauth_consumer_key"@, consumer_key@),
                ("oauth_nonce"@, nonce@),
                ("oauth_signature_method"@, "HMAC-SHA1"@),
                ("oauth_timestamp"@, timestamp@),
                ("oauth_token"@, token@),
                ("oauth_version"@, version@),
            ],
    {
        OAuthParameters {
            consumer_key: Parameter::new("oauth_consumer_key", consumer_key),
            nonce: Parameter::new("oauth_nonce", nonce),
            signature_method: Parameter::new("oauth_signature_method", "HMAC-SHA1"),
            timestamp: Parameter::new("oauth_timestamp", timestamp),
            token: Parameter::new("oauth_token", token),
            version: Parameter::new("oauth_version", version),
        }
    }

    /// The parameters with a fresh random nonce and the current time.
    pub fn new(consumer_key: &str, token: &str, version: &str) -> (r: OAuthParameters)
        ensures
            r.consumer_key@ == ("oauth_consumer_key"@, consumer_key@),
            r.nonce.key@ == "oauth_nonce"@,
            r.nonce.value@.len() == 21,
            forall|i: int| 0 <= i < r.nonce.value@.len() ==> is_id_char(#[trigger] r.nonce.value@[i]),
            r.signature_method@ == ("oauth_signature_method"@, "HMAC-SHA1"@),
            r.timestamp.key@ == "oauth_timestamp"@,
            exists|t: nat| r.timestamp.value@ == decimal(t),
            r.token@ == ("oauth_token"@, token@),
            r.version@ == ("oauth_version"@, version@),
    {
        let nonce = fresh_id();
        let timestamp = current_timestamp();
        Self::with_nonce_and_timestamp(consumer_key, token, version, nonce.as_str(), timestamp.as_str())
    }

    /// The six parameters, in the order of the fields.
    pub fn to_vec(&self) -> (r: Vec<Parameter>)
        ensures
            pairs_of(r@) == self.view(),
    {
        let r = vec![
            self.consumer_key.clone(),
            self.nonce.clone(),
            self.signature_method.clone(),
            self.timestamp.clone(),
            self.token.clone(),
            self.version.clone(),
        ];
        assert(pairs_of(r@) =~= self.view());
        r
    }
}

/// The current time in seconds since the Unix epoch, in decimal.
pub fn current_timestamp() -> (r: String)
    ensures
        exists|t: nat| r@ == decimal(t),
{
    let mut s = String::new();
    let t = current_timestamp_u64();
    push_decimal(&mut s, t);
    assert(s@ =~= decimal(t as nat));
    s
}

/// What signing depends on: the target, the secrets and the parameters.
pub struct SigningInput {
    pub url: Seq<char>,
    pub method: Seq<char>,
    pub consumer_secret: Seq<char>,
    pub token_secret: Seq<char>,
    pub oauth: Seq<Pair>,
    pub query: Seq<Pair>,
}

/// The sorted, `&`-joined encoded parameters, oauth_* and query alike.
pub open spec fn collected_parameters(s: SigningInput) -> Seq<char> {
    join(sort_texts(encoded_pairs(s.oauth + s.query)), "&"@)
}

/// `METHOD&url&parameters`, the URL and parameters percent-encoded.
pub open spec fn base_string(s: SigningInput) -> Seq<char> {
    upper_of(s.method) + "&"@ + pct(s.url) + "&"@ + pct(collected_parameters(s))
}

/// The two secrets, percent-encoded, joined by `&`.
pub open spec fn signing_key(s: SigningInput) -> Seq<char> {
    pct(s.consumer_secret) + "&"@ + pct(s.token_secret)
}

pub open spec fn signature(s: SigningInput) -> Seq<char> {
    base64_of(hmac_sha1_of(encode_utf8(signing_key(s)), encode_utf8(base_string(s))))
}

/// `OAuth ` and the oauth_* parameters with the signature last, as
/// `key="value"` joined by `, `.
pub open spec fn authorization_header(s: SigningInput) -> Seq<char> {
    "OAuth "@ + join(header_pairs(s.oauth.push(("oauth_signature"@, signature(s)))), ", "@)
}

/// The query parameters in their order, values percent-encoded, joined by `&`.
pub open spec fn query_string(s: SigningInput) -> Seq<char> {
    join(query_pairs(s.query), "&"@)
}

/// Signing is deterministic: the same input, nonce and timestamp included,
/// always gives the same header.
pub proof fn law_signing_is_deterministic(a: SigningInput, b: SigningInput)
    requires
        a == b,
    ensures
        authorization_header(a) == authorization_header(b),
        signature(a) == signature(b),
{
}

/// A request ready to send: method, full URI and headers.
#[derive(Debug)]
pub struct SignedRequest {
    pub method: String,
    pub uri: String,
    pub headers: Vec<(String, String)>,
}

/// Builds a signed request.
pub struct OAuthRequestBuilder {
    pub url: String,
    pub method: String,
    pub config: Config,
    pub oauth: OAuthParameters,
    pub query: Vec<Parameter>,
}

impl OAuthRequestBuilder {
    pub open spec fn view(&self) -> SigningInput {
        SigningInput {
            url: self.url@,
            method: self.method@,
            consumer_secret: self.config.api_secret_key@,
            token_secret: self.config.access_token_secret@,
            oauth: self.oauth.view(),
            query: pairs_of(self.query@),
        }
    }

    pub fn new(url: &str, method: &str, config: Config, oauth: OAuthParameters, query: Vec<Parameter>) -> (r:
        OAuthRequestBuilder)
        ensures
            r.url@ == url@,
            r.method@ == method@,
            r.config == config,
            r.oauth == oauth,
            r.query == query,
    {
        OAuthRequestBuilder { url: owned(url), method: owned(method), config, oauth, query }
    }

    /// Every parameter as `key=value`, percent-encoded, sorted and joined by `&`.
    pub fn collecting_parameters(&self) -> (r: String)
        ensures
            r@ == collected_parameters(self.view()),
    {
        let mut all = self.oauth.to_vec();
        let ghost oauth_part = pairs_of(all@);
        let mut i: usize = 0;
        while i < self.query.len()
            invariant
                i <= self.query@.len(),
                pairs_of(all@) == oauth_part + pairs_of(self.query@).subrange(0, i as int),
            decreases self.query@.len() - i,
        {
            let x = self.query[i].clone();
            assert(x@ == pairs_of(self.query@)[i as int]);
            let ghost before = all@;
            all.push(x);
            proof {
                assert(all@ == before.push(x));
                before.lemma_push_map_commute(|p: Parameter| p@, x);
                assert(pairs_of(self.query@).subrange(0, i + 1) =~= pairs_of(self.query@).subrange(0, i as int).push(x@));
                assert(pairs_of(all@) =~= oauth_part + pairs_of(self.query@).subrange(0, i + 1));
            }
            i = i + 1;
        }
        assert(pairs_of(self.query@).subrange(0, i as int) =~= pairs_of(self.query@));
        let mut encoded: Vec<String> = Vec::new();
        let mut j: usize = 0;
        while j < all.len()
            invariant
                j <= all@.len(),
                encoded.deep_view() == encoded_pairs(pairs_of(all@).subrange(0, j as int)),
            decreases all@.len() - j,
        {
            let e = all[j].as_percent_encoding();
            let ghost before = encoded.deep_view();
            encoded.push(e);
            proof {
                let ps = pairs_of(all@);
                assert(encoded.deep_view() =~= before.push(e@));
                assert(ps.subrange(0, j + 1) =~= ps.subrange(0, j as int).push(ps[j as int]));
                ps.subrange(0, j as int).lemma_push_map_commute(|p: Pair| encoded_pair(p), ps[j as int]);
            }
            j = j + 1;
        }
        assert(pairs_of(all@).subrange(0, j as int) =~= pairs_of(all@));
        let sorted = sort_strings(encoded);
        join_strings(&sorted, "&")
    }

    /// `METHOD&url&parameters` with the method upper-cased and the rest percent-encoded.
    pub fn generate_base_signature_string(&self) -> (r: String)
        ensures
            r@ == base_string(self.view()),
    {
        let mut s = to_uppercase(self.method.as_str());
        s.append("&");
        s.append(percent_encode(self.url.as_str()).as_str());
        s.append("&");
        let parameters = self.collecting_parameters();
        s.append(percent_encode(parameters.as_str()).as_str());
        s
    }

    /// The percent-encoded consumer secret and token secret, joined by `&`.
    pub fn getting_signing_key(&self) -> (r: String)
        ensures
            r@ == signing_key(self.view()),
    {
        let mut s = percent_encode(self.config.api_secret_key.as_str());
        s.append("&");
        s.append(percent_encode(self.config.access_token_secret.as_str()).as_str());
        s
    }

    /// The Base64 of the HMAC-SHA1 of the base string under the signing key.
    pub fn create_signature(&self) -> (r: String)
        ensures
            r@ == signature(self.view()),
    {
        let base = self.generate_base_signature_string();
        let key = self.getting_signing_key();
        let digest = hmac_sha1(key.as_str().as_bytes(), base.as_str().as_bytes());
        base64_encode(digest.as_slice())
    }

    /// The `Authorization` header value.
    pub fn create_authorization_header(&self) -> (r: String)
        ensures
            r@ == authorization_header(self.view()),
    {
        let sig = self.create_signature();
        let mut parameters = self.oauth.to_vec();
        parameters.push(Parameter { key: owned("oauth_signature"), value: sig });
        let ghost pairs = self.oauth.view().push(("oauth_signature"@, signature(self.view())));
        assert(pairs_of(parameters@) =~= pairs);
        let mut parts: Vec<String> = Vec::new();
        let mut j: usize = 0;
        while j < parameters.len()
            invariant
                j <= parameters@.len(),
                pairs_of(parameters@) == pairs,
                parts.deep_view() == header_pairs(pairs.subrange(0, j as int)),
            decreases parameters@.len() - j,
        {
            let e = parameters[j].as_http_parameter();
            let ghost before = parts.deep_view();
            parts.push(e);
            proof {
                assert(parts.deep_view() =~= before.push(e@));
                assert(pairs.subrange(0, j + 1) =~= pairs.subrange(0, j as int).push(pairs[j as int]));
                pairs.subrange(0, j as int).lemma_push_map_commute(|p: Pair| header_pair(p), pairs[j as int]);
            }
            j = j + 1;
        }
        assert(pairs.subrange(0, j as int) =~= pairs);
        let mut s = owned("OAuth ");
        s.append(join_strings(&parts, ", ").as_str());
        s
    }

    /// The query: `key=value` with values percent-encoded, in order, joined by `&`.
    pub fn query(&self) -> (r: String)
        ensures
            r@ == query_string(self.view()),
    {
        let ghost pairs = pairs_of(self.query@);
        let mut parts: Vec<String> = Vec::new();
        let mut j: usize = 0;
        while j < self.query.len()
            invariant
                j <= self.query@.len(),
                pairs == pairs_of(self.query@),
                parts.deep_view() == query_pairs(pairs.subrange(0, j as int)),
            decreases self.query@.len() - j,
        {
            let mut part = self.query[j].key.clone();
            part.append("=");
            part.append(percent_encode(self.query[j].value.as_str()).as_str());
            let ghost before = parts.deep_view();
            let ghost pv = part@;
            parts.push(part);
            proof {
                assert(parts.deep_view() =~= before.push(pv));
                assert(pairs.subrange(0, j + 1) =~= pairs.subrange(0, j as int).push(pairs[j as int]));
                pairs.subrange(0, j as int).lemma_push_map_commute(|p: Pair| query_pair(p), pairs[j as int]);
            }
            j = j + 1;
        }
        assert(pairs.subrange(0, j as int) =~= pairs);
        join_strings(&parts, "&")
    }

    /// The signed request: `url?query`, `Connection: close`, the form content
    /// type and the authorization header. `InvalidHttpMethod` when the method
    /// is empty or holds a character HTTP does not allow there.
    pub fn build(&self) -> (r: Result<SignedRequest, Error>)
        ensures
            match r {
                Ok(req) => {
                    &&& is_valid_method(self.method@)
                    &&& req.method@ == self.method@
                    &&& req.uri@ == self.url@ + "?"@ + query_string(self.view())
                    &&& req.headers@.len() == 3
                    &&& req.headers@[0].0@ == "Connection"@ && req.headers@[0].1@ == "close"@
                    &&& req.headers@[1].0@ == "Content-Type"@
                        && req.headers@[1].1@ == "application/x-www-form-urlencoded"@
                    &&& req.headers@[2].0@ == "Authorization"@
                        && req.headers@[2].1@ == authorization_header(self.view())
                },
                Err(e) => !is_valid_method(self.method@) && e is InvalidHttpMethod,
            },
    {
        if !is_http_method(self.method.as_str()) {
            return Err(Error::InvalidHttpMethod);
        }
        let mut uri = self.url.clone();
        uri.append("?");
        uri.append(self.query().as_str());
        let headers = vec![
            (owned("Connection"), owned("close")),
            (owned("Content-Type"), owned("application/x-www-form-urlencoded")),
            (owned("Authorization"), self.create_authorization_header()),
        ];
        Ok(SignedRequest { method: self.method.clone(), uri, headers })
    }
}

/// A method HTTP accepts: non-empty, token characters only.
pub open spec fn is_valid_method(m: Seq<char>) -> bool {
    m.len() > 0 && forall|i: int| 0 <= i < m.len() ==> is_token_char(#[trigger] m[i])
}

/// Whether `a` comes before `b` in code-point order.
pub fn text_less(a: &str, b: &str) -> (r: bool)
    ensures
        r == text_lt(a@, b@),
{
    let na = a.unicode_len();
    let nb = b.unicode_len();
    let mut i: usize = 0;
    assert(a@.skip(0) =~= a@);
    assert(b@.skip(0) =~= b@);
    while i < na && i < nb
        invariant
            na == a@.len(),
            nb == b@.len(),
            i <= na,
            i <= nb,
            text_lt(a@.skip(i as int), b@.skip(i as int)) == text_lt(a@, b@),
        decreases na - i,
    {
        let ca = a.get_char(i);
        let cb = b.get_char(i);
        assert(a@.skip(i as int)[0] == ca);
        assert(b@.skip(i as int)[0] == cb);
        if ca != cb {
            return (ca as u32) < (cb as u32);
        }
        assert(a@.skip(i as int).drop_first() =~= a@.skip(i + 1));
        assert(b@.skip(i as int).drop_first() =~= b@.skip(i + 1));
        i = i + 1;
    }
    assert(a@.skip(i as int).len() == 0 || b@.skip(i as int).len() == 0);
    i == na && i < nb
}

/// The texts in ascending code-point order; equal texts keep their order.
pub fn sort_strings(v: Vec<String>) -> (r: Vec<String>)
    ensures
        r.deep_view() == sort_texts(v.deep_view()),
{
    let mut r: Vec<String> = Vec::new();
    let mut i: usize = 0;
    while i < v.len()
        invariant
            i <= v@.len(),
            r.deep_view() == sort_texts(v.deep_view().subrange(0, i as int)),
        decreases v@.len() - i,
    {
        let x = v[i].clone();
        let ghost rs = r.deep_view();
        let mut j: usize = 0;
        while j < r.len() && !text_less(x.as_str(), r[j].as_str())
            invariant
                j <= r@.len(),
                rs == r.deep_view(),
                insert_pos(rs, x@, j as int) == insert_pos(rs, x@, 0),
            decreases r@.len() - j,
        {
            j = j + 1;
        }
        r.insert(j, x);
        proof {
            let s = v.deep_view().subrange(0, i + 1);
            assert(s.drop_last() =~= v.deep_view().subrange(0, i as int));
            assert(s.last() == v@[i as int]@);
            assert(r.deep_view() =~= rs.insert(j as int, x@));
        }
        i = i + 1;
    }
    assert(v.deep_view().subrange(0, i as int) =~= v.deep_view());
    r
}

/// The texts joined with a separator between each two.
pub fn join_strings(parts: &Vec<String>, sep: &str) -> (r: String)
    ensures
        r@ == join(parts.deep_view(), sep@),
{
    let mut s = String::new();
    let mut i: usize = 0;
    while i < parts.len()
        invariant
            i <= parts@.len(),
            s@ == join(parts.deep_view().subrange(0, i as int), sep@),
        decreases parts@.len() - i,
    {
        if i > 0 {
            s.append(sep);
        }
        s.append(parts[i].as_str());
        proof {
            let p = parts.deep_view().subrange(0, i + 1);
            assert(p.drop_last() =~= parts.deep_view().subrange(0, i as int));
            if i == 0 {
                assert(s@ =~= p[0]);
            }
        }
        i = i + 1;
    }
    assert(parts.deep_view().subrange(0, i as int) =~= parts.deep_view());
    s
}

} // verus!
