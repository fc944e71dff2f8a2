//! Schema mapping and REST endpoint support for an Elasticsearch-style
//! document store.
//!
//! The crate has three parts:
//!
//! - a date value type with pluggable parse/format strategies, each carrying
//!   the canonical name the store expects in a `format` mapping option;
//! - a schema core that describes structured document types as ordered field
//!   lists and emits them as JSON mapping objects;
//! - URL builders for the store's REST endpoints, plus the request parameters
//!   that accompany them.

use vstd::prelude::*;

pub mod calendar;
pub mod cat;
pub mod date;
pub mod delete;
pub mod document;
pub mod field;
pub mod indices;
pub mod ingest;
pub mod ip;
pub mod json;
pub mod scroll;
pub mod search;
pub mod snapshot;
mod text;

verus! {

/// What the form-urlencoded serializer of the `url` crate produces for one
/// key and value pair, `key=value` with both sides escaped.
pub uninterp spec fn form_encoded_pair(k: Seq<char>, v: Seq<char>) -> Seq<char>;

/// Relies on `url::form_urlencoded::Serializer::append_pair`: encodes one
/// key and value pair; the result depends on the two texts alone.
#[verifier::external_body]
fn encode_pair(k: &str, v: &str) -> (r: String)
    ensures
        r@ == form_encoded_pair(k@, v@),
{
    url::form_urlencoded::Serializer::new(String::new()).append_pair(k, v).finish()
}

/// Whether every key of a parameter list occurs once.
pub open spec fn params_wf(ps: Seq<(String, String)>) -> bool {
    forall|i: int, j: int| 0 <= i < j < ps.len() ==> (#[trigger] ps[i]).0@ != (#[trigger] ps[j]).0@
}

/// The encoded text of the query pairs after the first: each preceded by an
/// ampersand.
pub open spec fn query_tail_text(ps: Seq<(String, String)>) -> Seq<char>
    decreases ps,
{
    if ps.len() == 0 {
        Seq::<char>::empty()
    } else {
        (seq!['&'] + form_encoded_pair(ps[0].0@, ps[0].1@)) + query_tail_text(ps.skip(1))
    }
}

/// The encoded text of all query pairs, ampersand-separated.
pub open spec fn query_entries_text(ps: Seq<(String, String)>) -> Seq<char>
    decreases ps,
{
    if ps.len() == 0 {
        Seq::<char>::empty()
    } else {
        form_encoded_pair(ps[0].0@, ps[0].1@) + query_tail_text(ps.skip(1))
    }
}

/// The full query string of a parameter list: empty for no parameters, else
/// a question mark and the encoded pairs.
pub open spec fn query_text(ps: Seq<(String, String)>) -> Seq<char> {
    if ps.len() == 0 {
        Seq::<char>::empty()
    } else {
        seq!['?'] + query_entries_text(ps)
    }
}

/// Ampersand-prefixed pair text distributes over concatenation.
proof fn lemma_query_tail_append(a: Seq<(String, String)>, b: Seq<(String, String)>)
    ensures
        query_tail_text(a + b) == query_tail_text(a) + query_tail_text(b),
    decreases a.len(),
{
    if a.len() == 0 {
        assert(a + b =~= b);
        assert(query_tail_text(a) + query_tail_text(b) =~= query_tail_text(b));
    } else {
        lemma_query_tail_append(a.skip(1), b);
        assert((a + b).skip(1) =~= a.skip(1) + b);
        assert((a + b)[0] == a[0]);
        vstd::seq_lib::lemma_concat_associative(
            seq!['&'] + form_encoded_pair(a[0].0@, a[0].1@),
            query_tail_text(a.skip(1)),
            query_tail_text(b),
        );
    }
}

/// Reading one more pair extends the encoded pairs by its text, with an
/// ampersand unless it is the first.
proof fn lemma_query_take_step(ps: Seq<(String, String)>, i: int)
    requires
        0 <= i < ps.len(),
    ensures
        query_entries_text(ps.take(i + 1)) == if i == 0 {
            form_encoded_pair(ps[0].0@, ps[0].1@)
        } else {
            query_entries_text(ps.take(i)) + (seq!['&'] + form_encoded_pair(ps[i].0@, ps[i].1@))
        },
{
    let a = ps.take(i);
    let e = ps[i];
    assert(ps.take(i + 1) =~= a + seq![e]);
    if i == 0 {
        assert((a + seq![e])[0] == e);
        assert((a + seq![e]).skip(1) =~= Seq::<(String, String)>::empty());
        assert(query_entries_text(ps.take(1)) =~= form_encoded_pair(ps[0].0@, ps[0].1@));
    } else {
        assert((a + seq![e])[0] == a[0]);
        assert((a + seq![e]).skip(1) =~= a.skip(1) + seq![e]);
        lemma_query_tail_append(a.skip(1), seq![e]);
        assert(query_tail_text(seq![e]) == (seq!['&'] + form_encoded_pair(e.0@, e.1@))
            + query_tail_text(Seq::<(String, String)>::empty())) by {
            assert(seq![e].skip(1) =~= Seq::<(String, String)>::empty());
        };
        let he = seq!['&'] + form_encoded_pair(e.0@, e.1@);
        assert(he + query_tail_text(Seq::<(String, String)>::empty()) =~= he);
        vstd::seq_lib::lemma_concat_associative(
            form_encoded_pair(a[0].0@, a[0].1@),
            query_tail_text(a.skip(1)),
            he,
        );
    }
}

/// The parameters every request carries: the node's base URL and a simple
/// key-value store of query parameters. Keys are unique; writing a key
/// again replaces its value, and pairs keep first-insertion order.
#[derive(Debug, Clone)]
pub struct RequestParams {
    /// The base URL requests are sent to.
    pub base_url: String,
    /// The query parameters, each key held once.
    pub url_params: Vec<(String, String)>,
}

impl RequestParams {
    /// Parameters for a node, with no query parameters yet.
    pub fn new(base_url: &str) -> (r: RequestParams)
        ensures
            r.base_url@ == base_url@,
            r.url_params@.len() == 0,
            params_wf(r.url_params@),
    {
        RequestParams { base_url: String::from_str(base_url), url_params: Vec::new() }
    }

    /// Sets one query parameter: a new key is appended, a seen key has its
    /// value replaced.
    pub fn url_param(self, key: &str, value: &str) -> (r: RequestParams)
        requires
            params_wf(self.url_params@),
        ensures
            r.base_url == self.base_url,
            params_wf(r.url_params@),
            (exists|i: int|
                0 <= i < self.url_params@.len() && (#[trigger] self.url_params@[i]).0@ == key@)
                ==> exists|i: int|
                {
                    &&& 0 <= i < self.url_params@.len()
                    &&& (#[trigger] self.url_params@[i]).0@ == key@
                    &&& r.url_params@.len() == self.url_params@.len()
                    &&& r.url_params@[i].0@ == key@
                    &&& r.url_params@[i].1@ == value@
                    &&& forall|j: int|
                        0 <= j < self.url_params@.len() && j != i ==> r.url_params@[j]
                            == self.url_params@[j]
                },
            !(exists|i: int|
                0 <= i < self.url_params@.len() && (#[trigger] self.url_params@[i]).0@ == key@)
                ==> r.url_params@.len() == self.url_params@.len() + 1 && r.url_params@[self.url_params@.len() as int].0@
                == key@ && r.url_params@[self.url_params@.len() as int].1@ == value@ && forall|
                j: int,
            |
                0 <= j < self.url_params@.len() ==> r.url_params@[j] == self.url_params@[j],
    {
        let mut this = self;
        let key_string = String::from_str(key);
        let mut i: usize = 0;
        let n = this.url_params.len();
        while i < n
            invariant
                n == this.url_params@.len(),
                i <= n,
                this.base_url == self.base_url,
                this.url_params@ == self.url_params@,
                params_wf(self.url_params@),
                key_string@ == key@,
                forall|j: int| 0 <= j < i ==> (#[trigger] this.url_params@[j]).0@ != key@,
            decreases n - i,
        {
            if this.url_params[i].0 == key_string {
                let value_string = String::from_str(value);
                this.url_params.set(i, (key_string, value_string));
                proof {
                    assert forall|a: int, b: int|
                        0 <= a < b < this.url_params@.len() implies (#[trigger] this.url_params@[a]).0@
                        != (#[trigger] this.url_params@[b]).0@ by {
                        if a != i as int && b != i as int {
                            assert(this.url_params@[a] == self.url_params@[a]);
                            assert(this.url_params@[b] == self.url_params@[b]);
                        } else if a == i as int {
                            assert(this.url_params@[b] == self.url_params@[b]);
                            assert(this.url_params@[a].0@ == key@);
                            assert(self.url_params@[a].0@ == key@);
                            assert(self.url_params@[a].0@ != self.url_params@[b].0@);
                        } else {
                            assert(this.url_params@[a] == self.url_params@[a]);
                            assert(this.url_params@[b].0@ == key@);
                            assert(self.url_params@[a].0@ != key@);
                        }
                    }
                }
                return this;
            }
            i = i + 1;
        }
        let value_string = String::from_str(value);
        this.url_params.push((key_string, value_string));
        proof {
            assert forall|a: int, b: int|
                0 <= a < b < this.url_params@.len() implies (#[trigger] this.url_params@[a]).0@
                != (#[trigger] this.url_params@[b]).0@ by {
                if b < self.url_params@.len() {
                    assert(this.url_params@[a] == self.url_params@[a]);
                    assert(this.url_params@[b] == self.url_params@[b]);
                } else {
                    assert(this.url_params@[a] == self.url_params@[a]);
                    assert(this.url_params@[b].0@ == key@);
                }
            }
        }
        this
    }

    /// Sets a collection of query parameters in turn.
    pub fn url_params(self, params: Vec<(String, String)>) -> (r: RequestParams)
        requires
            params_wf(self.url_params@),
        ensures
            r.base_url == self.base_url,
            params_wf(r.url_params@),
    {
        let mut this = self;
        let mut params = params;
        while params.len() > 0
            invariant
                this.base_url == self.base_url,
                params_wf(this.url_params@),
            decreases params@.len(),
        {
            let (k, v) = params.remove(0);
            this = this.url_param(k.as_str(), v.as_str());
        }
        this
    }

    /// The query string of the parameters: empty without parameters, else a
    /// question mark and the form-urlencoded pairs, in insertion order.
    pub fn get_url_qry(&self) -> (r: String)
        ensures
            r@ == query_text(self.url_params@),
    {
        let n = self.url_params.len();
        if n == 0 {
            return String::new();
        }
        let mut out = String::new();
        crate::text::push_char(&mut out, '?');
        let mut i: usize = 0;
        proof {
            assert(self.url_params@.take(0) =~= Seq::<(String, String)>::empty());
        }
        while i < n
            invariant
                n == self.url_params@.len(),
                n > 0,
                i <= n,
                i == 0 ==> out@ == seq!['?'],
                i > 0 ==> out@ == seq!['?'] + query_entries_text(self.url_params@.take(i as int)),
            decreases n - i,
        {
            proof {
                lemma_query_take_step(self.url_params@, i as int);
            }
            if i > 0 {
                crate::text::push_char(&mut out, '&');
            }
            let pair = &self.url_params[i];
            let encoded = encode_pair(pair.0.as_str(), pair.1.as_str());
            out.append(encoded.as_str());
            proof {
                if i > 0 {
                    vstd::seq_lib::lemma_concat_associative(
                        seq!['?'] + query_entries_text(self.url_params@.take(i as int)),
                        seq!['&'],
                        form_encoded_pair(
                            self.url_params@[i as int].0@,
                            self.url_params@[i as int].1@,
                        ),
                    );
                    vstd::seq_lib::lemma_concat_associative(
                        seq!['?'],
                        query_entries_text(self.url_params@.take(i as int)),
                        seq!['&'] + form_encoded_pair(
                            self.url_params@[i as int].0@,
                            self.url_params@[i as int].1@,
                        ),
                    );
                }
            }
            i = i + 1;
        }
        proof {
            assert(self.url_params@.take(n as int) =~= self.url_params@);
        }
        out
    }
}

impl Default for RequestParams {
    /// Parameters for a node on the local host's conventional port.
    fn default() -> (r: RequestParams)
        ensures
            r.base_url@ == "http://localhost:9200"@,
            r.url_params@.len() == 0,
            params_wf(r.url_params@),
    {
        RequestParams::new("http://localhost:9200")
    }
}

} // verus!
