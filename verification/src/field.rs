//! Per-kind field mapping configurations and the capability they share.
//!
//! Each logical field kind of the document store has a small option set with
//! documented defaults. An unset option is omitted from the emitted schema,
//! which makes the store apply its own default. The `FieldMapping` trait is
//! the capability every configuration offers: naming the kind keyword that
//! goes into the schema's `type` entry.

use vstd::prelude::*;

use crate::json::{
    entries_text, entries_wf, lemma_append_empty, opt_bool_text, opt_num_text, opt_str_text,
    opt_view, push_entry, push_opt_bool, push_opt_num, push_opt_str, quoted, Decimal, Json,
};

verus! {

/// The text an optional integer option contributes: nothing, or a comma and
/// its entry.
pub open spec fn opt_int_text(key: Seq<char>, o: Option<i64>) -> Seq<char> {
    match o {
        None => Seq::<char>::empty(),
        Some(v) => ((seq![','] + quoted(key)) + seq![':']) + (Decimal {
            mantissa: v,
            scale: 0,
        }).spec_text(),
    }
}

/// Appends an overridden integer option, or nothing when it is unset.
pub fn push_opt_int(es: &mut Vec<(String, Json)>, key: &str, o: Option<i64>)
    requires
        entries_wf(old(es)@),
        old(es)@.len() > 0,
    ensures
        entries_wf(final(es)@),
        final(es)@.len() >= old(es)@.len(),
        entries_text(final(es)@) == entries_text(old(es)@) + opt_int_text(key@, o),
{
    match o {
        Some(v) => {
            push_entry(es, key, Json::Num(Decimal::integer(v)));
        },
        None => {
            proof {
                lemma_append_empty(entries_text(es@));
            }
        },
    }
}

/// The capability a field mapping configuration offers: the kind keyword it
/// puts in its schema's `type` entry.
pub trait FieldMapping {
    /// The kind keyword, such as `date` or `ip`.
    spec fn spec_data_type(&self) -> Seq<char>;

    /// The kind keyword, such as `date` or `ip`.
    fn data_type(&self) -> (r: String)
        ensures
            r@ == self.spec_data_type(),
    ;
}

/// Options for a `boolean` field.
#[derive(Debug, Clone)]
pub struct BooleanMapping {
    /// Index-time boosting; the store's default is one.
    pub boost: Option<Decimal>,
    /// Column-stride storage; the store's default is on.
    pub doc_values: Option<bool>,
    /// Whether the field is searchable; the store's default is on.
    pub index: Option<bool>,
    /// Substitute for explicit nulls; by default the field is then missing.
    pub null_value: Option<bool>,
    /// Separate retrievable storage; the store's default is off.
    pub store: Option<bool>,
}

impl BooleanMapping {
    /// A configuration leaving every option at the store's default.
    pub fn new() -> (r: BooleanMapping)
        ensures
            r.boost is None,
            r.doc_values is None,
            r.index is None,
            r.null_value is None,
            r.store is None,
    {
        BooleanMapping { boost: None, doc_values: None, index: None, null_value: None, store: None }
    }
}

impl FieldMapping for BooleanMapping {
    open spec fn spec_data_type(&self) -> Seq<char> {
        "boolean"@
    }

    fn data_type(&self) -> (r: String) {
        String::from_str("boolean")
    }
}

/// Options for a `keyword` field, which indexes text verbatim.
#[derive(Debug, Clone)]
pub struct KeywordMapping {
    /// Longest value still indexed; longer ones are dropped from the index.
    pub ignore_above: Option<u32>,
}

impl KeywordMapping {
    /// A configuration leaving every option at the store's default.
    pub fn new() -> (r: KeywordMapping)
        ensures
            r.ignore_above is None,
    {
        KeywordMapping { ignore_above: None }
    }
}

impl FieldMapping for KeywordMapping {
    open spec fn spec_data_type(&self) -> Seq<char> {
        "keyword"@
    }

    fn data_type(&self) -> (r: String) {
        String::from_str("keyword")
    }
}

/// Options for a `text` field, which is analyzed for full-text search. Its
/// `fields` are additional ways the same value is indexed, canonically a
/// verbatim `keyword` sub-field.
#[derive(Debug, Clone)]
pub struct TextMapping {
    /// The analyzer applied at index time; the store picks its standard one
    /// by default.
    pub analyzer: Option<String>,
    /// Index-time boosting; the store's default is one.
    pub boost: Option<Decimal>,
    /// Named sub-fields indexing the same value differently.
    pub fields: Vec<(String, KeywordMapping)>,
}

impl TextMapping {
    /// A configuration leaving every option at the store's default, with no
    /// sub-fields.
    pub fn new() -> (r: TextMapping)
        ensures
            r.analyzer is None,
            r.boost is None,
            r.fields@.len() == 0,
    {
        TextMapping { analyzer: None, boost: None, fields: Vec::new() }
    }

    /// The canonical mapping for a plain string: a `text` field with a
    /// verbatim `keyword` sub-field capped at 256 characters.
    pub fn default_string() -> (r: TextMapping)
        ensures
            r.analyzer is None,
            r.boost is None,
            r.fields@.len() == 1,
            r.fields@[0].0@ == "keyword"@,
            r.fields@[0].1.ignore_above == Some(256u32),
    {
        let mut fields: Vec<(String, KeywordMapping)> = Vec::new();
        fields.push((String::from_str("keyword"), KeywordMapping { ignore_above: Some(256) }));
        TextMapping { analyzer: None, boost: None, fields }
    }
}

impl FieldMapping for TextMapping {
    open spec fn spec_data_type(&self) -> Seq<char> {
        "text"@
    }

    fn data_type(&self) -> (r: String) {
        String::from_str("text")
    }
}

/// Options for an `integer` field.
#[derive(Debug, Clone)]
pub struct IntegerMapping {
    /// Substitute for explicit nulls; by default the field is then missing.
    pub null_value: Option<i64>,
}

impl IntegerMapping {
    /// A configuration leaving every option at the store's default.
    pub fn new() -> (r: IntegerMapping)
        ensures
            r.null_value is None,
    {
        IntegerMapping { null_value: None }
    }
}

impl FieldMapping for IntegerMapping {
    open spec fn spec_data_type(&self) -> Seq<char> {
        "integer"@
    }

    fn data_type(&self) -> (r: String) {
        String::from_str("integer")
    }
}

/// Options for a `geo_point` field: a longitude and latitude pair.
#[derive(Debug, Clone)]
pub struct GeoPointMapping {
    /// Whether malformed points are skipped rather than rejected; the
    /// store's default is to reject.
    pub ignore_malformed: Option<bool>,
}

impl GeoPointMapping {
    /// A configuration leaving every option at the store's default.
    pub fn new() -> (r: GeoPointMapping)
        ensures
            r.ignore_malformed is None,
    {
        GeoPointMapping { ignore_malformed: None }
    }
}

impl FieldMapping for GeoPointMapping {
    open spec fn spec_data_type(&self) -> Seq<char> {
        "geo_point"@
    }

    fn data_type(&self) -> (r: String) {
        String::from_str("geo_point")
    }
}

/// Options for a `geo_shape` field: a geojson-style shape.
#[derive(Debug, Clone)]
pub struct GeoShapeMapping {
    /// Whether malformed shapes are skipped rather than rejected; the
    /// store's default is to reject.
    pub ignore_malformed: Option<bool>,
}

impl GeoShapeMapping {
    /// A configuration leaving every option at the store's default.
    pub fn new() -> (r: GeoShapeMapping)
        ensures
            r.ignore_malformed is None,
    {
        GeoShapeMapping { ignore_malformed: None }
    }
}

impl FieldMapping for GeoShapeMapping {
    open spec fn spec_data_type(&self) -> Seq<char> {
        "geo_shape"@
    }

    fn data_type(&self) -> (r: String) {
        String::from_str("geo_shape")
    }
}

/// The exact schema text a boolean mapping emits.
pub open spec fn boolean_mapping_text(m: BooleanMapping) -> Seq<char> {
    seq!['{'] + ((((((quoted("type"@) + seq![':']) + quoted("boolean"@)) + opt_num_text(
        "boost"@,
        m.boost,
    )) + opt_bool_text("doc_values"@, m.doc_values)) + opt_bool_text("index"@, m.index))
        + opt_bool_text("null_value"@, m.null_value)) + opt_bool_text("store"@, m.store)
        + seq!['}']
}

impl BooleanMapping {
    /// Whether every overridden number can be rendered.
    pub open spec fn wf(self) -> bool {
        match self.boost {
            Some(d) => d.wf(),
            None => true,
        }
    }

    /// Emits the mapping as a JSON object.
    pub fn to_json(&self) -> (r: Json)
        requires
            self.wf(),
        ensures
            r.wf(),
            r.spec_text() == boolean_mapping_text(*self),
    {
        let mut es: Vec<(String, Json)> = Vec::new();
        push_entry(&mut es, "type", Json::Str(String::from_str("boolean")));
        push_opt_num(&mut es, "boost", self.boost);
        push_opt_bool(&mut es, "doc_values", self.doc_values);
        push_opt_bool(&mut es, "index", self.index);
        push_opt_bool(&mut es, "null_value", self.null_value);
        push_opt_bool(&mut es, "store", self.store);
        Json::Object(es)
    }
}

/// The exact schema text a keyword mapping emits.
pub open spec fn keyword_mapping_text(m: KeywordMapping) -> Seq<char> {
    seq!['{'] + (((quoted("type"@) + seq![':']) + quoted("keyword"@)) + opt_int_text(
        "ignore_above"@,
        opt_int_of_u32(m.ignore_above),
    )) + seq!['}']
}

/// The views of an optional small count as an optional integer.
pub open spec fn opt_int_of_u32(o: Option<u32>) -> Option<i64> {
    match o {
        None => None,
        Some(v) => Some(v as i64),
    }
}

impl KeywordMapping {
    /// Emits the mapping as a JSON object.
    pub fn to_json(&self) -> (r: Json)
        ensures
            r.wf(),
            r.spec_text() == keyword_mapping_text(*self),
    {
        let mut es: Vec<(String, Json)> = Vec::new();
        push_entry(&mut es, "type", Json::Str(String::from_str("keyword")));
        let o: Option<i64> = match self.ignore_above {
            Some(v) => Some(v as i64),
            None => None,
        };
        push_opt_int(&mut es, "ignore_above", o);
        Json::Object(es)
    }
}

/// The exact schema text an integer mapping emits.
pub open spec fn integer_mapping_text(m: IntegerMapping) -> Seq<char> {
    seq!['{'] + (((quoted("type"@) + seq![':']) + quoted("integer"@)) + opt_int_text(
        "null_value"@,
        m.null_value,
    )) + seq!['}']
}

impl IntegerMapping {
    /// Emits the mapping as a JSON object.
    pub fn to_json(&self) -> (r: Json)
        ensures
            r.wf(),
            r.spec_text() == integer_mapping_text(*self),
    {
        let mut es: Vec<(String, Json)> = Vec::new();
        push_entry(&mut es, "type", Json::Str(String::from_str("integer")));
        push_opt_int(&mut es, "null_value", self.null_value);
        Json::Object(es)
    }
}

/// The exact schema text a geo-point mapping emits.
pub open spec fn geo_point_mapping_text(m: GeoPointMapping) -> Seq<char> {
    seq!['{'] + (((quoted("type"@) + seq![':']) + quoted("geo_point"@)) + opt_bool_text(
        "ignore_malformed"@,
        m.ignore_malformed,
    )) + seq!['}']
}

impl GeoPointMapping {
    /// Emits the mapping as a JSON object.
    pub fn to_json(&self) -> (r: Json)
        ensures
            r.wf(),
            r.spec_text() == geo_point_mapping_text(*self),
    {
        let mut es: Vec<(String, Json)> = Vec::new();
        push_entry(&mut es, "type", Json::Str(String::from_str("geo_point")));
        push_opt_bool(&mut es, "ignore_malformed", self.ignore_malformed);
        Json::Object(es)
    }
}

/// The exact schema text a geo-shape mapping emits.
pub open spec fn geo_shape_mapping_text(m: GeoShapeMapping) -> Seq<char> {
    seq!['{'] + (((quoted("type"@) + seq![':']) + quoted("geo_shape"@)) + opt_bool_text(
        "ignore_malformed"@,
        m.ignore_malformed,
    )) + seq!['}']
}

impl GeoShapeMapping {
    /// Emits the mapping as a JSON object.
    pub fn to_json(&self) -> (r: Json)
        ensures
            r.wf(),
            r.spec_text() == geo_shape_mapping_text(*self),
    {
        let mut es: Vec<(String, Json)> = Vec::new();
        push_entry(&mut es, "type", Json::Str(String::from_str("geo_shape")));
        push_opt_bool(&mut es, "ignore_malformed", self.ignore_malformed);
        Json::Object(es)
    }
}

/// The text of a text mapping's sub-field entries: the first bare, the rest
/// comma-prefixed.
pub open spec fn subfields_entries_text(fs: Seq<(String, KeywordMapping)>) -> Seq<char>
    decreases fs,
{
    if fs.len() == 0 {
        Seq::<char>::empty()
    } else {
        ((quoted(fs[0].0@) + seq![':']) + keyword_mapping_text(fs[0].1)) + subfields_tail_text(
            fs.skip(1),
        )
    }
}

/// The text of sub-field entries after the first: each preceded by a comma.
pub open spec fn subfields_tail_text(fs: Seq<(String, KeywordMapping)>) -> Seq<char>
    decreases fs,
{
    if fs.len() == 0 {
        Seq::<char>::empty()
    } else {
        (((seq![','] + quoted(fs[0].0@)) + seq![':']) + keyword_mapping_text(fs[0].1))
            + subfields_tail_text(fs.skip(1))
    }
}

/// Comma-prefixed sub-field text distributes over concatenation.
proof fn lemma_subfields_tail_append(a: Seq<(String, KeywordMapping)>, b: Seq<
    (String, KeywordMapping),
>)
    ensures
        subfields_tail_text(a + b) == subfields_tail_text(a) + subfields_tail_text(b),
    decreases a.len(),
{
    if a.len() == 0 {
        assert(a + b =~= b);
        assert(subfields_tail_text(a) + subfields_tail_text(b) =~= subfields_tail_text(b));
    } else {
        lemma_subfields_tail_append(a.skip(1), b);
        assert((a + b).skip(1) =~= a.skip(1) + b);
        assert((a + b)[0] == a[0]);
        let h = ((seq![','] + quoted(a[0].0@)) + seq![':']) + keyword_mapping_text(a[0].1);
        vstd::seq_lib::lemma_concat_associative(
            h,
            subfields_tail_text(a.skip(1)),
            subfields_tail_text(b),
        );
    }
}

/// Reading one more sub-field extends the sub-field text by its entry, with
/// a comma unless it is the first.
proof fn lemma_subfields_take_step(fs: Seq<(String, KeywordMapping)>, i: int)
    requires
        0 <= i < fs.len(),
    ensures
        subfields_entries_text(fs.take(i + 1)) == if i == 0 {
            (quoted(fs[0].0@) + seq![':']) + keyword_mapping_text(fs[0].1)
        } else {
            subfields_entries_text(fs.take(i)) + (((seq![','] + quoted(fs[i].0@)) + seq![':'])
                + keyword_mapping_text(fs[i].1))
        },
{
    let a = fs.take(i);
    let e = fs[i];
    assert(fs.take(i + 1) =~= a + seq![e]);
    if i == 0 {
        assert((a + seq![e])[0] == e);
        assert((a + seq![e]).skip(1) =~= Seq::<(String, KeywordMapping)>::empty());
    } else {
        assert((a + seq![e])[0] == a[0]);
        assert((a + seq![e]).skip(1) =~= a.skip(1) + seq![e]);
        lemma_subfields_tail_append(a.skip(1), seq![e]);
        assert(subfields_tail_text(seq![e]) == (((seq![','] + quoted(e.0@)) + seq![':'])
            + keyword_mapping_text(e.1)) + subfields_tail_text(
            Seq::<(String, KeywordMapping)>::empty(),
        )) by {
            assert(seq![e].skip(1) =~= Seq::<(String, KeywordMapping)>::empty());
        };
        let h0 = (quoted(a[0].0@) + seq![':']) + keyword_mapping_text(a[0].1);
        let he = ((seq![','] + quoted(e.0@)) + seq![':']) + keyword_mapping_text(e.1);
        lemma_append_empty(he);
        vstd::seq_lib::lemma_concat_associative(h0, subfields_tail_text(a.skip(1)), he);
    }
}

/// The text the optional `fields` entry contributes: nothing when there are
/// no sub-fields, else a comma and the sub-field object.
pub open spec fn opt_subfields_text(fs: Seq<(String, KeywordMapping)>) -> Seq<char> {
    if fs.len() == 0 {
        Seq::<char>::empty()
    } else {
        ((seq![','] + quoted("fields"@)) + seq![':']) + (seq!['{'] + subfields_entries_text(fs)
            + seq!['}'])
    }
}

/// The exact schema text a text mapping emits.
pub open spec fn text_mapping_text(m: TextMapping) -> Seq<char> {
    seq!['{'] + (((((quoted("type"@) + seq![':']) + quoted("text"@)) + opt_str_text(
        "analyzer"@,
        opt_view(m.analyzer),
    )) + opt_num_text("boost"@, m.boost)) + opt_subfields_text(m.fields@)) + seq!['}']
}

impl TextMapping {
    /// Whether every overridden number can be rendered.
    pub open spec fn wf(self) -> bool {
        match self.boost {
            Some(d) => d.wf(),
            None => true,
        }
    }

    /// Emits the mapping as a JSON object.
    pub fn to_json(&self) -> (r: Json)
        requires
            self.wf(),
        ensures
            r.wf(),
            r.spec_text() == text_mapping_text(*self),
    {
        let mut es: Vec<(String, Json)> = Vec::new();
        push_entry(&mut es, "type", Json::Str(String::from_str("text")));
        push_opt_str(&mut es, "analyzer", &self.analyzer);
        push_opt_num(&mut es, "boost", self.boost);
        if self.fields.len() > 0 {
            let mut sub: Vec<(String, Json)> = Vec::new();
            let n = self.fields.len();
            let mut i: usize = 0;
            while i < n
                invariant
                    n == self.fields@.len(),
                    i <= n,
                    sub@.len() == i,
                    entries_wf(sub@),
                    entries_text(sub@) == subfields_entries_text(self.fields@.take(i as int)),
                decreases n - i,
            {
                proof {
                    if i == 0 {
                        assert(self.fields@.take(0) =~= Seq::<(String, KeywordMapping)>::empty());
                    }
                    lemma_subfields_take_step(self.fields@, i as int);
                }
                let pair = &self.fields[i];
                push_entry(&mut sub, pair.0.as_str(), pair.1.to_json());
                i = i + 1;
            }
            proof {
                assert(self.fields@.take(n as int) =~= self.fields@);
            }
            push_entry(&mut es, "fields", Json::Object(sub));
        } else {
            proof {
                lemma_append_empty(entries_text(es@));
            }
        }
        Json::Object(es)
    }
}

} // verus!
