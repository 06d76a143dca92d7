//! Telling Last.fm what is listened to: what its requests carry, how they are
//! signed, and what its answers say.
use vstd::prelude::*;
use vstd::utf8::encode_utf8;

use crate::json::{self, Json};
use crate::paths::{self, Env};
use crate::percent;
use crate::text::{self, Rank};

verus! {

/// Where requests go.
pub const API_ROOT: &'static str = "https://ws.audioscrobbler.com/2.0/";

/// What it takes to tell Last.fm anything.
#[derive(Debug, PartialEq, Eq)]
pub struct Config {
    pub enabled: bool,
    pub api_key: String,
    pub api_secret: String,
    pub session_key: String,
    pub username: String,
}

impl Clone for Config {
    fn clone(&self) -> (r: Self)
        ensures
            r == *self,
    {
        Config {
            enabled: self.enabled,
            api_key: self.api_key.clone(),
            api_secret: self.api_secret.clone(),
            session_key: self.session_key.clone(),
            username: self.username.clone(),
        }
    }
}

impl Default for Config {
    fn default() -> (r: Self)
        ensures
            !r.enabled,
            r.api_key@.len() == 0,
            r.api_secret@.len() == 0,
            r.session_key@.len() == 0,
            r.username@.len() == 0,
    {
        Config {
            enabled: false,
            api_key: String::new(),
            api_secret: String::new(),
            session_key: String::new(),
            username: String::new(),
        }
    }
}

impl Config {
    /// Whether listens are told: it is switched on, and nothing that a request
    /// needs is missing.
    pub open spec fn spec_ready(self) -> bool {
        self.enabled && self.spec_can_auth() && self.session_key@.len() > 0
    }

    /// Whether a session can be asked for.
    pub open spec fn spec_can_auth(self) -> bool {
        self.api_key@.len() > 0 && self.api_secret@.len() > 0
    }

    pub fn ready(&self) -> (r: bool)
        ensures
            r == self.spec_ready(),
    {
        self.enabled && !self.api_key.as_str().is_empty() && !self.api_secret.as_str().is_empty()
            && !self.session_key.as_str().is_empty()
    }

    pub fn can_auth(&self) -> (r: bool)
        ensures
            r == self.spec_can_auth(),
    {
        !self.api_key.as_str().is_empty() && !self.api_secret.as_str().is_empty()
    }
}

/// Where the configuration is kept.
pub fn path(env: &Env) -> (r: Option<String>)
    ensures
        text::opt_view(r) == paths::under_opt(env.spec_config_dir(), "lastfm.json"@),
{
    paths::join_opt(paths::config_dir(env), "lastfm.json")
}

/// The parameters of a request, in the order of their names.
#[derive(Debug)]
pub struct Params {
    pub pairs: Vec<(String, String)>,
}

/// The value of a name among parameters.
pub open spec fn value_of(p: Seq<(Seq<char>, Seq<char>)>, name: Seq<char>) -> Option<Seq<char>>
    decreases p.len(),
{
    if p.len() == 0 {
        None
    } else if p.last().0 == name {
        Some(p.last().1)
    } else {
        value_of(p.drop_last(), name)
    }
}

/// Whether parameters stand in the order of their names, no name twice.
pub open spec fn ordered(p: Seq<(Seq<char>, Seq<char>)>) -> bool {
    forall|i: int, j: int|
        0 <= i < j < p.len() ==> text::rank_of((#[trigger] p[i]).0, (#[trigger] p[j]).0) is Before
}

/// What pairs hold.
pub open spec fn pair_views(v: Seq<(String, String)>) -> Seq<(Seq<char>, Seq<char>)> {
    v.map_values(|p: (String, String)| (p.0@, p.1@))
}

impl View for Params {
    type V = Seq<(Seq<char>, Seq<char>)>;

    open spec fn view(&self) -> Seq<(Seq<char>, Seq<char>)> {
        pair_views(self.pairs@)
    }
}

proof fn value_at(p: Seq<(Seq<char>, Seq<char>)>, i: int)
    requires
        ordered(p),
        0 <= i < p.len(),
    ensures
        value_of(p, p[i].0) == Some(p[i].1),
    decreases p.len(),
{
    if i < p.len() - 1 {
        let rest = p.drop_last();
        assert(p[p.len() - 1] == p.last());
        text::rank_is_antisymmetric(p[i].0, p.last().0);
        assert(p.last().0 != p[i].0);
        assert(rest[i] == p[i]);
        assert forall|a: int, b: int| 0 <= a < b < rest.len() implies text::rank_of(
            (#[trigger] rest[a]).0,
            (#[trigger] rest[b]).0,
        ) is Before by {
            assert(rest[a] == p[a] && rest[b] == p[b]);
        }
        value_at(rest, i);
    }
}

proof fn no_value(p: Seq<(Seq<char>, Seq<char>)>, name: Seq<char>)
    requires
        forall|i: int| 0 <= i < p.len() ==> (#[trigger] p[i]).0 != name,
    ensures
        value_of(p, name) is None,
    decreases p.len(),
{
    if p.len() > 0 {
        assert(p[p.len() - 1].0 != name);
        let rest = p.drop_last();
        assert forall|i: int| 0 <= i < rest.len() implies (#[trigger] rest[i]).0 != name by {
            assert(rest[i] == p[i]);
        }
        no_value(rest, name);
    }
}

proof fn some_value(p: Seq<(Seq<char>, Seq<char>)>, name: Seq<char>) -> (i: int)
    requires
        value_of(p, name) is Some,
    ensures
        0 <= i < p.len(),
        p[i].0 == name,
        value_of(p, name) == Some(p[i].1),
    decreases p.len(),
{
    if p.last().0 == name {
        p.len() - 1
    } else {
        some_value(p.drop_last(), name)
    }
}

proof fn values_after_insert(
    p: Seq<(Seq<char>, Seq<char>)>,
    q: Seq<(Seq<char>, Seq<char>)>,
    k: int,
    name: Seq<char>,
    value: Seq<char>,
)
    requires
        ordered(p),
        0 <= k <= p.len(),
        forall|i: int| 0 <= i < k ==> text::rank_of((#[trigger] p[i]).0, name) is Before,
        k < p.len() ==> !(text::rank_of(p[k].0, name) is Before),
        if k < p.len() && p[k].0 == name {
            q == p.update(k, (name, value))
        } else {
            q == p.insert(k, (name, value))
        },
    ensures
        ordered(q),
        forall|n: Seq<char>| #[trigger]
            value_of(q, n) == if n == name {
                Some(value)
            } else {
                value_of(p, n)
            },
{
    let replaced = k < p.len() && p[k].0 == name;
    if k < p.len() {
        text::rank_is_antisymmetric(p[k].0, name);
    }
    assert forall|j: int| k < j < p.len() implies text::rank_of(
        name,
        (#[trigger] p[j]).0,
    ) is Before by {
        assert(text::rank_of(p[k].0, p[j].0) is Before);
        text::rank_is_transitive(name, p[k].0, p[j].0);
    }
    assert forall|i: int, j: int| 0 <= i < j < q.len() implies text::rank_of(
        (#[trigger] q[i]).0,
        (#[trigger] q[j]).0,
    ) is Before by {
        if replaced {
            if i != k && j != k {
                assert(q[i] == p[i] && q[j] == p[j]);
            } else if i == k {
                assert(q[j] == p[j]);
            } else {
                assert(q[i] == p[i]);
            }
        } else {
            if i < k && j < k {
                assert(q[i] == p[i] && q[j] == p[j]);
            } else if i < k && j == k {
                assert(q[i] == p[i]);
            } else if i < k {
                assert(q[i] == p[i] && q[j] == p[j - 1]);
            } else if i == k {
                assert(q[j] == p[j - 1]);
                if j - 1 == k {
                    assert(text::rank_of(name, p[k].0) is Before);
                }
            } else {
                assert(q[i] == p[i - 1] && q[j] == p[j - 1]);
            }
        }
    }
    value_at(q, k);
    assert forall|n: Seq<char>| n != name implies #[trigger] value_of(q, n) == value_of(p, n) by {
        if value_of(p, n) is Some {
            let i = some_value(p, n);
            let at = if replaced || i < k {
                i
            } else {
                i + 1
            };
            assert(q[at] == p[i]);
            value_at(q, at);
        } else {
            assert forall|i: int| 0 <= i < q.len() implies (#[trigger] q[i]).0 != n by {
                if i != k {
                    let from = if replaced || i < k {
                        i
                    } else {
                        i - 1
                    };
                    assert(q[i] == p[from]);
                    value_at(p, from);
                }
            }
            no_value(q, n);
        }
    }
}

impl Params {
    pub open spec fn wf(self) -> bool {
        ordered(self@)
    }

    pub fn new() -> (r: Self)
        ensures
            r.wf(),
            r@ == Seq::<(Seq<char>, Seq<char>)>::empty(),
    {
        let r = Params { pairs: Vec::new() };
        assert(r@ =~= Seq::<(Seq<char>, Seq<char>)>::empty());
        r
    }

    /// Give a name a value, in place of the one it had.
    pub fn insert(&mut self, name: &str, value: &str)
        requires
            old(self).wf(),
        ensures
            final(self).wf(),
            forall|n: Seq<char>| #[trigger]
                value_of(final(self)@, n) == if n == name@ {
                    Some(value@)
                } else {
                    value_of(old(self)@, n)
                },
    {
        let ghost before = self@;
        let mut k: usize = 0;
        while k < self.pairs.len() && matches!(
            text::rank(self.pairs[k].0.as_str(), name),
            Rank::Before
        )
            invariant
                k <= self.pairs@.len(),
                before == self@,
                *self == *old(self),
                forall|i: int|
                    0 <= i < k ==> text::rank_of((#[trigger] before[i]).0, name@) is Before,
            decreases self.pairs@.len() - k,
        {
            assert(before[k as int].0 == self.pairs@[k as int].0@);
            k += 1;
        }
        if k < self.pairs.len() {
            assert(before[k as int].0 == self.pairs@[k as int].0@);
        }
        if k < self.pairs.len() && text::same(self.pairs[k].0.as_str(), name) {
            let pair = (name.to_owned(), value.to_owned());
            self.pairs.set(k, pair);
            assert(self@ =~= before.update(k as int, (name@, value@)));
        } else {
            self.pairs.insert(k, (name.to_owned(), value.to_owned()));
            assert(self@ =~= before.insert(k as int, (name@, value@)));
        }
        proof {
            values_after_insert(before, self@, k as int, name@, value@);
        }
    }
}

/// Parameters with the same values are the same, in whatever order they were
/// given.
pub proof fn the_order_of_giving_does_not_matter(
    a: Seq<(Seq<char>, Seq<char>)>,
    b: Seq<(Seq<char>, Seq<char>)>,
)
    requires
        ordered(a),
        ordered(b),
        forall|n: Seq<char>| #[trigger] value_of(a, n) == value_of(b, n),
    ensures
        a == b,
    decreases a.len(),
{
    if a.len() == 0 {
        if b.len() > 0 {
            value_at(b, 0);
            assert(value_of(a, b[0].0) is None);
        }
        assert(a =~= b);
    } else if b.len() == 0 {
        value_at(a, 0);
        assert(value_of(b, a[0].0) is None);
    } else {
        let x = a.last();
        let y = b.last();
        value_at(a, a.len() - 1);
        value_at(b, b.len() - 1);
        assert(value_of(b, x.0) == Some(x.1));
        assert(value_of(a, y.0) == Some(y.1));
        let i = some_value(b, x.0);
        let j = some_value(a, y.0);
        text::rank_is_antisymmetric(x.0, y.0);
        if i < b.len() - 1 && j < a.len() - 1 {
            assert(text::rank_of(b[i].0, b[b.len() - 1].0) is Before);
            assert(text::rank_of(a[j].0, a[a.len() - 1].0) is Before);
        }
        assert(x.0 == y.0);
        let p = a.drop_last();
        let q = b.drop_last();
        assert forall|m: int, n: int| 0 <= m < n < p.len() implies text::rank_of(
            (#[trigger] p[m]).0,
            (#[trigger] p[n]).0,
        ) is Before by {
            assert(p[m] == a[m] && p[n] == a[n]);
        }
        assert forall|m: int, n: int| 0 <= m < n < q.len() implies text::rank_of(
            (#[trigger] q[m]).0,
            (#[trigger] q[n]).0,
        ) is Before by {
            assert(q[m] == b[m] && q[n] == b[n]);
        }
        assert forall|n: Seq<char>| #[trigger] value_of(p, n) == value_of(q, n) by {
            assert(value_of(a, n) == value_of(b, n));
            if n == x.0 {
                assert forall|m: int| 0 <= m < p.len() implies (#[trigger] p[m]).0 != n by {
                    assert(p[m] == a[m]);
                    assert(a[a.len() - 1] == x);
                    text::rank_is_antisymmetric(a[m].0, x.0);
                }
                assert forall|m: int| 0 <= m < q.len() implies (#[trigger] q[m]).0 != n by {
                    assert(q[m] == b[m]);
                    assert(b[b.len() - 1] == y);
                    text::rank_is_antisymmetric(b[m].0, y.0);
                }
                no_value(p, n);
                no_value(q, n);
            }
        }
        the_order_of_giving_does_not_matter(p, q);
        assert(a =~= p.push(x));
        assert(b =~= q.push(y));
    }
}

/// What `Md5::digest` returns for these bytes.
pub uninterp spec fn md5_of(bytes: Seq<u8>) -> Seq<u8>;

/// `Md5::digest` of the crate `md-5` on the UTF-8 form of a text. The contract
/// names the digest, a function of the bytes alone, and says that it is sixteen
/// bytes long; what they are is left to that crate.
#[verifier::external_body]
fn digest(input: &str) -> (r: Vec<u8>)
    ensures
        r@ == md5_of(encode_utf8(input@)),
        r@.len() == 16,
{
    <md5::Md5 as md5::Digest>::digest(input.as_bytes()).to_vec()
}

/// Bytes in hexadecimal, two digits for each.
pub open spec fn hex_of(bytes: Seq<u8>) -> Seq<char>
    decreases bytes.len(),
{
    if bytes.len() == 0 {
        Seq::empty()
    } else {
        hex_of(bytes.drop_last()).push(json::hex(bytes.last() as int / 16)).push(
            json::hex(bytes.last() as int % 16),
        )
    }
}

fn low_digit(d: u8) -> (r: char)
    requires
        d < 16,
    ensures
        r == json::hex(d as int),
{
    if d < 10 {
        (48 + d) as char
    } else {
        (97 + (d - 10)) as char
    }
}

/// Bytes in hexadecimal, two digits for each.
pub fn write_hex(bytes: &Vec<u8>) -> (r: String)
    ensures
        r@ == hex_of(bytes@),
{
    let mut out = String::new();
    let mut i: usize = 0;
    assert(bytes@.take(0) =~= Seq::<u8>::empty());
    while i < bytes.len()
        invariant
            i <= bytes@.len(),
            out@ =~= hex_of(bytes@.take(i as int)),
        decreases bytes@.len() - i,
    {
        proof {
            text::take_step(bytes@, i as int);
            assert(bytes@.take(i + 1).drop_last() =~= bytes@.take(i as int));
        }
        out.push(low_digit(bytes[i] / 16));
        out.push(low_digit(bytes[i] % 16));
        i += 1;
    }
    assert(bytes@.take(i as int) =~= bytes@);
    out
}

/// The MD5 digest of a text, in hexadecimal.
pub fn md5_hex(input: &str) -> (r: String)
    ensures
        r@ == hex_of(md5_of(encode_utf8(input@))),
        r@.len() == 32,
{
    let bytes = digest(input);
    proof {
        hex_is_twice_as_long(bytes@);
    }
    write_hex(&bytes)
}

proof fn hex_is_twice_as_long(bytes: Seq<u8>)
    ensures
        hex_of(bytes).len() == 2 * bytes.len(),
    decreases bytes.len(),
{
    if bytes.len() > 0 {
        hex_is_twice_as_long(bytes.drop_last());
    }
}

/// What a signature is made from: names and values in order, but for those that
/// say how to answer.
pub open spec fn flat(p: Seq<(Seq<char>, Seq<char>)>) -> Seq<char>
    decreases p.len(),
{
    if p.len() == 0 {
        Seq::empty()
    } else {
        let r = flat(p.drop_last());
        if p.last().0 == "format"@ || p.last().0 == "callback"@ {
            r
        } else {
            r + p.last().0 + p.last().1
        }
    }
}

/// What the signature of a request is the digest of.
pub fn signed_text(params: &Params, secret: &str) -> (r: String)
    ensures
        r@ == flat(params@) + secret@,
{
    let mut out = String::new();
    let mut i: usize = 0;
    let ghost all = params@;
    assert(all.take(0) =~= Seq::<(Seq<char>, Seq<char>)>::empty());
    while i < params.pairs.len()
        invariant
            i <= params.pairs@.len(),
            all == params@,
            out@ =~= flat(all.take(i as int)),
        decreases params.pairs@.len() - i,
    {
        proof {
            text::take_step(all, i as int);
            assert(all.take(i + 1).drop_last() =~= all.take(i as int));
            assert(all[i as int] == (params.pairs@[i as int].0@, params.pairs@[i as int].1@));
        }
        let name = params.pairs[i].0.as_str();
        if !text::same(name, "format") && !text::same(name, "callback") {
            out.append(name);
            out.append(params.pairs[i].1.as_str());
        }
        i += 1;
    }
    assert(all.take(i as int) =~= all);
    out.append(secret);
    out
}

/// The signature of a request.
pub open spec fn signature(p: Seq<(Seq<char>, Seq<char>)>, secret: Seq<char>) -> Seq<char> {
    hex_of(md5_of(encode_utf8(flat(p) + secret)))
}

/// The signature of a request: the digest of its names and values in order,
/// with the secret behind them.
pub fn sign(params: &Params, secret: &str) -> (r: String)
    ensures
        r@ == signature(params@, secret@),
        r@.len() == 32,
{
    md5_hex(signed_text(params, secret).as_str())
}

/// What says how to answer is no part of a signature.
pub proof fn the_form_of_the_answer_is_not_signed(p: Seq<(Seq<char>, Seq<char>)>, k: int)
    requires
        0 <= k < p.len(),
        p[k].0 == "format"@ || p[k].0 == "callback"@,
    ensures
        flat(p) == flat(p.remove(k)),
    decreases p.len(),
{
    let rest = p.remove(k);
    if k == p.len() - 1 {
        assert(rest =~= p.drop_last());
    } else {
        the_form_of_the_answer_is_not_signed(p.drop_last(), k);
        assert(rest.drop_last() =~= p.drop_last().remove(k));
        assert(rest.last() == p.last());
    }
}

/// Whether `r` is the request with this method: what it was asked with, the
/// method, the form of the answer, and the signature of all that.
pub open spec fn is_request(
    r: Seq<(Seq<char>, Seq<char>)>,
    method: Seq<char>,
    params: Seq<(Seq<char>, Seq<char>)>,
    secret: Seq<char>,
) -> bool {
    exists|unsigned: Seq<(Seq<char>, Seq<char>)>|
        {
            &&& #[trigger] ordered(unsigned)
            &&& forall|n: Seq<char>| #[trigger]
                value_of(unsigned, n) == if n == "format"@ {
                    Some("json"@)
                } else if n == "method"@ {
                    Some(method)
                } else {
                    value_of(params, n)
                }
            &&& forall|n: Seq<char>| #[trigger]
                value_of(r, n) == if n == "api_sig"@ {
                    Some(signature(unsigned, secret))
                } else {
                    value_of(unsigned, n)
                }
        }
}

/// A request, signed.
pub fn request(method: &str, params: Params, secret: &str) -> (r: Params)
    requires
        params.wf(),
    ensures
        r.wf(),
        is_request(r@, method@, params@, secret@),
{
    let mut p = params;
    p.insert("method", method);
    p.insert("format", "json");
    let ghost unsigned = p@;
    let sig = sign(&p, secret);
    p.insert("api_sig", sig.as_str());
    proof {
        reveal_strlit("method");
        reveal_strlit("format");
        assert(ordered(unsigned));
    }
    p
}

/// Why a request came to nothing.
#[derive(Debug, PartialEq, Eq)]
pub enum Failure {
    /// The answer is not JSON.
    NotJson,
    /// Last.fm says what is wrong.
    Refused { code: i64, message: String },
    /// Nothing but the status says that it failed.
    Status,
}

impl Failure {
    /// The sentence to show. `status` is the status of the answer.
    pub open spec fn spec_message(self, status: Seq<char>) -> Seq<char> {
        match self {
            Failure::NotJson => "last.fm json"@,
            Failure::Refused { code, message } => "last.fm error "@ + text::signed_decimal(
                code as int,
            ) + ": "@ + message@,
            Failure::Status => "last.fm HTTP "@ + status,
        }
    }

    /// The sentence to show.
    pub fn message(&self, status: &str) -> (r: String)
        ensures
            r@ == self.spec_message(status@),
    {
        match self {
            Failure::NotJson => "last.fm json".to_owned(),
            Failure::Refused { code, message } => {
                let mut out = "last.fm error ".to_owned();
                out.append(text::integer(*code).as_str());
                out.append(": ");
                out.append(message.as_str());
                out
            },
            Failure::Status => {
                let mut out = "last.fm HTTP ".to_owned();
                out.append(status);
                out
            },
        }
    }
}

/// The integer that a value is.
pub open spec fn integer_in(v: Option<Json>) -> Option<int> {
    match v {
        Some(Json::Number(json::Number::Whole(n))) => if n <= i64::MAX {
            Some(n as int)
        } else {
            None
        },
        Some(Json::Number(json::Number::Below(n))) => Some(n as int),
        _ => None,
    }
}

fn integer_of(v: Option<&Json>) -> (r: Option<i64>)
    ensures
        match r {
            Some(n) => integer_in(json::held(v)) == Some(n as int),
            None => integer_in(json::held(v)) is None,
        },
{
    match v {
        Some(Json::Number(json::Number::Whole(n))) => if *n <= i64::MAX as u64 {
            Some(*n as i64)
        } else {
            None
        },
        Some(Json::Number(json::Number::Below(n))) => Some(*n),
        _ => None,
    }
}

/// Whether `r` is what an answer means: the reason that Last.fm gives for
/// refusing, else the status, else the answer itself.
pub open spec fn means(r: Result<Json, Failure>, value: Option<Json>, success: bool) -> bool {
    match value {
        None => r == Err::<Json, Failure>(Failure::NotJson),
        Some(v) => match integer_in(json::in_object(v, "error"@)) {
            Some(code) => {
                &&& r matches Err(Failure::Refused { code: c, message })
                &&& c == code
                &&& message@ == match json::text_in(json::in_object(v, "message"@)) {
                    Some(m) => m,
                    None => "request failed"@,
                }
            },
            None => r == if success {
                Ok::<Json, Failure>(v)
            } else {
                Err(Failure::Status)
            },
        },
    }
}

/// What an answer means.
pub fn judge(value: Option<Json>, success: bool) -> (r: Result<Json, Failure>)
    ensures
        means(r, value, success),
{
    match value {
        None => Err(Failure::NotJson),
        Some(v) => {
            if let Some(code) = integer_of(v.get("error")) {
                let message = match json::text_of(v.get("message")) {
                    Some(m) => m.to_owned(),
                    None => "request failed".to_owned(),
                };
                return Err(Failure::Refused { code, message });
            }
            if success {
                Ok(v)
            } else {
                Err(Failure::Status)
            }
        },
    }
}

/// What the body of an answer means.
pub fn answer(body: &str, success: bool) -> (r: Result<Json, Failure>)
    ensures
        means(r, json::parsed(body@), success),
{
    judge(json::parse(body), success)
}

/// The parameters that ask for a token: none without a key and a secret.
pub fn token_params(cfg: &Config) -> (r: Option<Params>)
    ensures
        match r {
            Some(p) => cfg.spec_can_auth() && p.wf() && forall|n: Seq<char>| #[trigger]
                value_of(p@, n) == if n == "api_key"@ {
                    Some(cfg.api_key@)
                } else {
                    None
                },
            None => !cfg.spec_can_auth(),
        },
{
    if !cfg.can_auth() {
        return None;
    }
    let mut p = Params::new();
    p.insert("api_key", cfg.api_key.as_str());
    Some(p)
}

/// A text that is there and not empty.
pub open spec fn filled(v: Option<Json>) -> Option<Seq<char>> {
    match json::text_in(v) {
        Some(s) => if s.len() > 0 {
            Some(s)
        } else {
            None
        },
        None => None,
    }
}

fn filled_text(v: Option<&Json>) -> (r: Option<String>)
    ensures
        text::opt_view(r) == filled(json::held(v)),
{
    match json::text_of(v) {
        Some(s) => if s.is_empty() {
            None
        } else {
            Some(s.to_owned())
        },
        None => None,
    }
}

/// Where a token is authorised.
pub open spec fn spec_auth_url(api_key: Seq<char>, token: Seq<char>) -> Seq<char> {
    "https://www.last.fm/api/auth/?api_key="@ + percent::encoded(encode_utf8(api_key)) + "&token="@
        + percent::encoded(encode_utf8(token))
}

/// The token that an answer gives, and where it is authorised.
pub fn begin_auth(cfg: &Config, value: &Json) -> (r: Option<(String, String)>)
    ensures
        match r {
            Some((token, url)) => filled(json::in_object(*value, "token"@)) == Some(token@) && url@
                == spec_auth_url(cfg.api_key@, token@),
            None => filled(json::in_object(*value, "token"@)) is None,
        },
{
    match filled_text(value.get("token")) {
        Some(token) => {
            let mut url = "https://www.last.fm/api/auth/?api_key=".to_owned();
            url.append(percent::urlencode(cfg.api_key.as_str()).as_str());
            url.append("&token=");
            url.append(percent::urlencode(token.as_str()).as_str());
            Some((token, url))
        },
        None => None,
    }
}

/// The parameters that exchange an authorised token for a session: none without
/// a key and a secret.
pub fn session_params(cfg: &Config, token: &str) -> (r: Option<Params>)
    ensures
        match r {
            Some(p) => cfg.spec_can_auth() && p.wf() && forall|n: Seq<char>| #[trigger]
                value_of(p@, n) == if n == "token"@ {
                    Some(token@)
                } else if n == "api_key"@ {
                    Some(cfg.api_key@)
                } else {
                    None
                },
            None => !cfg.spec_can_auth(),
        },
{
    if !cfg.can_auth() {
        return None;
    }
    let mut p = Params::new();
    p.insert("api_key", cfg.api_key.as_str());
    p.insert("token", token);
    Some(p)
}

/// Why there is no session.
#[derive(Debug, Clone, Copy, PartialEq, Eq, Structural)]
pub enum NoSession {
    /// The token was not authorised.
    NotAuthorised,
    /// The session has no key.
    NoKey,
}

impl NoSession {
    /// The sentence to show.
    pub fn message(self) -> (r: &'static str)
        ensures
            r@ == match self {
                NoSession::NotAuthorised => "last.fm: no session (authorize in the browser first)"@,
                NoSession::NoKey => "last.fm: empty session key"@,
            },
    {
        match self {
            NoSession::NotAuthorised => "last.fm: no session (authorize in the browser first)",
            NoSession::NoKey => "last.fm: empty session key",
        }
    }
}

/// Whether `next` is the configuration with the session `session`, switched on.
pub open spec fn has_session(next: Config, cfg: Config, session: Json) -> bool {
    &&& next.enabled
    &&& next.api_key@ == cfg.api_key@
    &&& next.api_secret@ == cfg.api_secret@
    &&& filled(json::in_object(session, "key"@)) == Some(next.session_key@)
    &&& next.username@ == json::words(json::in_object(session, "name"@))
}

/// The configuration with the session that an answer gives, switched on.
pub fn complete_auth(cfg: &Config, value: &Json) -> (r: Result<Config, NoSession>)
    ensures
        match json::in_object(*value, "session"@) {
            None => r == Err::<Config, NoSession>(NoSession::NotAuthorised),
            Some(session) => match filled(json::in_object(session, "key"@)) {
                None => r == Err::<Config, NoSession>(NoSession::NoKey),
                Some(_) => r matches Ok(next) && has_session(next, *cfg, session),
            },
        },
{
    match value.get("session") {
        None => Err(NoSession::NotAuthorised),
        Some(session) => match filled_text(session.get("key")) {
            None => Err(NoSession::NoKey),
            Some(key) => Ok(
                Config {
                    enabled: true,
                    api_key: cfg.api_key.clone(),
                    api_secret: cfg.api_secret.clone(),
                    session_key: key,
                    username: json::words_of(session.get("name")),
                },
            ),
        },
    }
}

/// Once a session was given, listens are told.
pub proof fn a_session_makes_it_ready(cfg: Config, next: Config, session: Json)
    requires
        cfg.spec_can_auth(),
        has_session(next, cfg, session),
    ensures
        next.spec_ready(),
{
}

/// Whether a song can be told of: all is ready, and it has an artist and a
/// title.
pub open spec fn can_tell(cfg: Config, artist: Seq<char>, title: Seq<char>) -> bool {
    cfg.spec_ready() && artist.len() > 0 && title.len() > 0
}

/// Whether parameters tell what is playing.
pub open spec fn tells_of_playing(
    p: Seq<(Seq<char>, Seq<char>)>,
    cfg: Config,
    artist: Seq<char>,
    title: Seq<char>,
    album: Seq<char>,
) -> bool {
    forall|n: Seq<char>| #[trigger]
        value_of(p, n) == if n == "album"@ && album.len() > 0 {
            Some(album)
        } else if n == "track"@ {
            Some(title)
        } else if n == "artist"@ {
            Some(artist)
        } else if n == "sk"@ {
            Some(cfg.session_key@)
        } else if n == "api_key"@ {
            Some(cfg.api_key@)
        } else {
            None
        }
}

/// Whether parameters tell of a listen that began at `started`.
pub open spec fn tells_of_listen(
    p: Seq<(Seq<char>, Seq<char>)>,
    cfg: Config,
    artist: Seq<char>,
    title: Seq<char>,
    album: Seq<char>,
    started: nat,
) -> bool {
    forall|n: Seq<char>| #[trigger]
        value_of(p, n) == if n == "album[0]"@ && album.len() > 0 {
            Some(album)
        } else if n == "timestamp[0]"@ {
            Some(text::decimal(started))
        } else if n == "track[0]"@ {
            Some(title)
        } else if n == "artist[0]"@ {
            Some(artist)
        } else if n == "sk"@ {
            Some(cfg.session_key@)
        } else if n == "api_key"@ {
            Some(cfg.api_key@)
        } else {
            None
        }
}

/// The parameters that tell what is playing, if it can be told.
pub fn now_playing_params(cfg: &Config, artist: &str, title: &str, album: &str) -> (r: Option<
    Params,
>)
    ensures
        match r {
            Some(p) => can_tell(*cfg, artist@, title@) && p.wf() && forall|n: Seq<char>| #[trigger]
                value_of(p@, n) == if n == "album"@ && album@.len() > 0 {
                    Some(album@)
                } else if n == "track"@ {
                    Some(title@)
                } else if n == "artist"@ {
                    Some(artist@)
                } else if n == "sk"@ {
                    Some(cfg.session_key@)
                } else if n == "api_key"@ {
                    Some(cfg.api_key@)
                } else {
                    None
                },
            None => !can_tell(*cfg, artist@, title@),
        },
        r matches Some(p) ==> tells_of_playing(p@, *cfg, artist@, title@, album@),
{
    if !cfg.ready() || artist.is_empty() || title.is_empty() {
        return None;
    }
    let mut p = Params::new();
    p.insert("api_key", cfg.api_key.as_str());
    p.insert("sk", cfg.session_key.as_str());
    p.insert("artist", artist);
    p.insert("track", title);
    if !album.is_empty() {
        p.insert("album", album);
    }
    proof {
        reveal_strlit("album");
        reveal_strlit("track");
        reveal_strlit("artist");
        reveal_strlit("sk");
        reveal_strlit("api_key");
    }
    Some(p)
}

/// The parameters that tell of a listen, if it can be told.
pub fn scrobble_params(
    cfg: &Config,
    artist: &str,
    title: &str,
    album: &str,
    started_unix: u64,
) -> (r: Option<Params>)
    ensures
        match r {
            Some(p) => can_tell(*cfg, artist@, title@) && p.wf() && forall|n: Seq<char>| #[trigger]
                value_of(p@, n) == if n == "album[0]"@ && album@.len() > 0 {
                    Some(album@)
                } else if n == "timestamp[0]"@ {
                    Some(text::decimal(started_unix as nat))
                } else if n == "track[0]"@ {
                    Some(title@)
                } else if n == "artist[0]"@ {
                    Some(artist@)
                } else if n == "sk"@ {
                    Some(cfg.session_key@)
                } else if n == "api_key"@ {
                    Some(cfg.api_key@)
                } else {
                    None
                },
            None => !can_tell(*cfg, artist@, title@),
        },
        r matches Some(p) ==> tells_of_listen(
            p@,
            *cfg,
            artist@,
            title@,
            album@,
            started_unix as nat,
        ),
{
    if !cfg.ready() || artist.is_empty() || title.is_empty() {
        return None;
    }
    let mut p = Params::new();
    p.insert("api_key", cfg.api_key.as_str());
    p.insert("sk", cfg.session_key.as_str());
    p.insert("artist[0]", artist);
    p.insert("track[0]", title);
    p.insert("timestamp[0]", text::number(started_unix).as_str());
    if !album.is_empty() {
        p.insert("album[0]", album);
    }
    Some(p)
}

/// Whether a listen counts: half of a song under a minute, else half a minute.
pub open spec fn counts(heard_ms: int, duration_ms: int) -> bool {
    if 0 < duration_ms < 60_000 {
        heard_ms * 2 >= duration_ms
    } else {
        heard_ms / 1000 >= 30
    }
}

/// Whether a listen counts.
pub fn is_scrobble_eligible(heard_ms: u64, duration_ms: u64) -> (r: bool)
    ensures
        r == counts(heard_ms as int, duration_ms as int),
{
    if duration_ms > 0 && duration_ms < 60_000 {
        return heard_ms as u128 * 2 >= duration_ms as u128;
    }
    heard_ms / 1000 >= 30
}

/// A listen that counts goes on counting the longer it is heard.
pub proof fn hearing_more_never_counts_less(a: int, b: int, duration_ms: int)
    requires
        0 <= a <= b,
        counts(a, duration_ms),
    ensures
        counts(b, duration_ms),
{
}

/// The time in seconds: that of the clock, or zero where it is before the
/// epoch.
pub fn unix_now(since_epoch: Option<u64>) -> (r: u64)
    ensures
        r == match since_epoch {
            Some(s) => s,
            None => 0,
        },
{
    match since_epoch {
        Some(s) => s,
        None => 0,
    }
}

/// What is told of a song that is playing is its artist, its title, its album
/// where it has one, and whose listens are told.
pub proof fn what_is_playing_is_told(
    p: Seq<(Seq<char>, Seq<char>)>,
    cfg: Config,
    artist: Seq<char>,
    title: Seq<char>,
    album: Seq<char>,
)
    requires
        tells_of_playing(p, cfg, artist, title, album),
    ensures
        value_of(p, "artist"@) == Some(artist),
        value_of(p, "track"@) == Some(title),
        value_of(p, "album"@) == if album.len() > 0 {
            Some(album)
        } else {
            None
        },
        value_of(p, "sk"@) == Some(cfg.session_key@),
        value_of(p, "api_key"@) == Some(cfg.api_key@),
        value_of(p, "timestamp[0]"@) is None,
{
    reveal_strlit("artist");
    reveal_strlit("track");
    reveal_strlit("album");
    reveal_strlit("sk");
    reveal_strlit("api_key");
    reveal_strlit("timestamp[0]");
    assert("artist"@.len() == 6 && "track"@.len() == 5 && "album"@.len() == 5);
    assert("track"@[0] == 't' && "album"@[0] == 'a');
    assert("sk"@.len() == 2 && "api_key"@.len() == 7 && "timestamp[0]"@.len() == 12);
}

/// What is told of a listen is its artist, its title, its album where it has
/// one, when it began, and whose it is.
pub proof fn a_listen_is_told(
    p: Seq<(Seq<char>, Seq<char>)>,
    cfg: Config,
    artist: Seq<char>,
    title: Seq<char>,
    album: Seq<char>,
    started: nat,
)
    requires
        tells_of_listen(p, cfg, artist, title, album, started),
    ensures
        value_of(p, "artist[0]"@) == Some(artist),
        value_of(p, "track[0]"@) == Some(title),
        value_of(p, "album[0]"@) == if album.len() > 0 {
            Some(album)
        } else {
            None
        },
        value_of(p, "timestamp[0]"@) == Some(text::decimal(started)),
        value_of(p, "sk"@) == Some(cfg.session_key@),
        value_of(p, "api_key"@) == Some(cfg.api_key@),
{
    reveal_strlit("artist[0]");
    reveal_strlit("track[0]");
    reveal_strlit("album[0]");
    reveal_strlit("sk");
    reveal_strlit("api_key");
    reveal_strlit("timestamp[0]");
    assert("artist[0]"@.len() == 9 && "track[0]"@.len() == 8 && "album[0]"@.len() == 8);
    assert("track[0]"@[0] == 't' && "album[0]"@[0] == 'a');
    assert("sk"@.len() == 2 && "api_key"@.len() == 7 && "timestamp[0]"@.len() == 12);
}

/// A listen counts after half a minute, or after half of a song that lasts less
/// than a minute; a song that was heard to its end counts.
pub proof fn a_listen_counts_after_half_a_minute(heard_ms: int, duration_ms: int)
    requires
        heard_ms >= 0,
    ensures
        duration_ms <= 0 || duration_ms >= 60_000 ==> (counts(heard_ms, duration_ms) <==> heard_ms
            >= 30_000),
        0 < duration_ms < 60_000 ==> (counts(heard_ms, duration_ms) <==> heard_ms + heard_ms
            >= duration_ms),
        duration_ms > 0 ==> counts(duration_ms, duration_ms),
        duration_ms > 0 ==> !counts(0, duration_ms),
{
}

/// A request says the method, asks for an answer in JSON, keeps every parameter
/// but these, and is signed with the secret.
pub proof fn a_request_is_signed(
    r: Seq<(Seq<char>, Seq<char>)>,
    method: Seq<char>,
    params: Seq<(Seq<char>, Seq<char>)>,
    secret: Seq<char>,
    n: Seq<char>,
)
    requires
        is_request(r, method, params, secret),
    ensures
        value_of(r, "method"@) == Some(method),
        value_of(r, "format"@) == Some("json"@),
        value_of(r, "api_sig"@) is Some,
        n != "method"@ && n != "format"@ && n != "api_sig"@ ==> value_of(r, n) == value_of(
            params,
            n,
        ),
{
    reveal_strlit("method");
    reveal_strlit("format");
    reveal_strlit("api_sig");
    assert("method"@.len() == 6 && "format"@.len() == 6 && "api_sig"@.len() == 7);
    assert("method"@[0] == 'm' && "format"@[0] == 'f');
}

/// A signature covers every name and value, each behind its name, but those
/// that say how to answer.
pub proof fn every_value_is_signed(
    p: Seq<(Seq<char>, Seq<char>)>,
    n: Seq<char>,
    v: Seq<char>,
)
    ensures
        n != "format"@ && n != "callback"@ ==> flat(p.push((n, v))) == flat(p) + n + v,
        n == "format"@ || n == "callback"@ ==> flat(p.push((n, v))) == flat(p),
        flat(Seq::empty()).len() == 0,
{
    assert(p.push((n, v)).drop_last() =~= p);
}

/// A byte is two digits, and different bytes are different digits.
pub proof fn a_byte_is_two_digits(bytes: Seq<u8>, a: u8, b: u8)
    ensures
        hex_of(bytes).len() == 2 * bytes.len(),
        hex_of(bytes.push(a)).take(2 * bytes.len() as int) == hex_of(bytes),
        hex_of(bytes.push(a)) == hex_of(bytes.push(b)) ==> a == b,
    decreases bytes.len(),
{
    if bytes.len() > 0 {
        a_byte_is_two_digits(bytes.drop_last(), a, b);
    }
    assert(bytes.push(a).drop_last() =~= bytes);
    assert(bytes.push(b).drop_last() =~= bytes);
    let x = hex_of(bytes.push(a));
    let y = hex_of(bytes.push(b));
    let k = hex_of(bytes).len() as int;
    assert(x.take(k) =~= hex_of(bytes));
    assert(x[k] == json::hex(a as int / 16) && x[k + 1] == json::hex(a as int % 16));
    assert(y[k] == json::hex(b as int / 16) && y[k + 1] == json::hex(b as int % 16));
    if x == y {
        one_digit(a as int / 16, b as int / 16);
        one_digit(a as int % 16, b as int % 16);
    }
}

proof fn one_digit(d: int, e: int)
    requires
        0 <= d < 16,
        0 <= e < 16,
        json::hex(d) == json::hex(e),
    ensures
        d == e,
{
}

/// An answer that says why it refuses is refused for that, whatever its status;
/// one that says nothing of the kind is what its status says.
pub proof fn a_refusal_says_why(
    r: Result<Json, Failure>,
    v: Json,
    success: bool,
    code: u64,
    message: Seq<char>,
)
    requires
        means(r, Some(v), success),
    ensures
        json::in_object(v, "error"@) == Some(Json::Number(json::Number::Whole(code))) && code
            <= i64::MAX && json::says(v, "message"@, message) ==> (r matches Err(
            Failure::Refused { code: c, message: m },
        ) && c == code && m@ == message),
        json::in_object(v, "error"@) is None && success ==> r == Ok::<Json, Failure>(v),
        json::in_object(v, "error"@) is None && !success ==> r == Err::<Json, Failure>(
            Failure::Status,
        ),
{
}

/// Nothing is told without a key, a secret and a session, nor while it is
/// switched off, nor of a song without an artist or a title.
pub proof fn nothing_is_told_unless_all_is_there(cfg: Config, artist: Seq<char>, title: Seq<char>)
    ensures
        can_tell(cfg, artist, title) <==> cfg.enabled && cfg.api_key@.len() > 0
            && cfg.api_secret@.len() > 0 && cfg.session_key@.len() > 0 && artist.len() > 0
            && title.len() > 0,
        cfg.spec_ready() ==> cfg.spec_can_auth(),
{
}

/// A token is authorised at an address that carries the key and the token, each
/// as it may stand there.
pub proof fn a_token_is_authorised_by_its_address(api_key: Seq<char>, token: Seq<char>)
    ensures
        spec_auth_url(api_key, token) == "https://www.last.fm/api/auth/?api_key="@
            + percent::encoded(encode_utf8(api_key)) + "&token="@ + percent::encoded(
            encode_utf8(token),
        ),
{
}

} // verus!
