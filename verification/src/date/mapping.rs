//! Options for a `date` field, tied to the format strategy that names it.

use vstd::prelude::*;

use crate::date::format::DateFormat;
use crate::field::FieldMapping;
use crate::json::{
    opt_bool_text, opt_num_text, opt_str_text, opt_view, push_entry, push_opt_bool, push_opt_num,
    push_opt_str, quoted, Decimal, Json,
};

verus! {

/// Options for a `date` field. The `format` names the strategy that both
/// declares the schema format and serializes the field's values, so the two
/// can never disagree.
#[derive(Debug, Clone)]
pub struct DateMapping {
    /// The schema-facing name of the date format strategy.
    pub format: String,
    /// Index-time boosting; the store's default is one.
    pub boost: Option<Decimal>,
    /// Column-stride storage; the store's default is on.
    pub doc_values: Option<bool>,
    /// Whether the field joins the catch-all text of its document; the
    /// store's default is on.
    pub include_in_all: Option<bool>,
    /// Whether the field is searchable; the store's default is on.
    pub index: Option<bool>,
    /// Separate retrievable storage; the store's default is off.
    pub store: Option<bool>,
    /// Whether malformed dates are skipped rather than rejected; the
    /// store's default is to reject.
    pub ignore_malformed: Option<bool>,
    /// Substitute for explicit nulls; by default the field is then missing.
    pub null_value: Option<String>,
}

/// The text of a date mapping's two fixed leading entries: its kind and
/// its format name.
pub open spec fn date_type_format_text(m: DateMapping) -> Seq<char> {
    ((quoted("type"@) + seq![':']) + quoted("date"@)) + (((seq![','] + quoted("format"@))
        + seq![':']) + quoted(m.format@))
}

/// The text of all of a date mapping's entries: the kind, the format, then
/// each option that was overridden, in a fixed order, each omitted entirely
/// when left at the store's default.
pub open spec fn date_mapping_entries_text(m: DateMapping) -> Seq<char> {
    date_type_format_text(m) + opt_num_text("boost"@, m.boost) + opt_bool_text(
        "doc_values"@,
        m.doc_values,
    ) + opt_bool_text("include_in_all"@, m.include_in_all) + opt_bool_text("index"@, m.index)
        + opt_bool_text("store"@, m.store) + opt_bool_text("ignore_malformed"@, m.ignore_malformed)
        + opt_str_text("null_value"@, opt_view(m.null_value))
}

/// The exact schema text a date mapping emits.
pub open spec fn date_mapping_text(m: DateMapping) -> Seq<char> {
    seq!['{'] + date_mapping_entries_text(m) + seq!['}']
}

impl DateMapping {
    /// Whether every overridden number can be rendered.
    pub open spec fn wf(self) -> bool {
        match self.boost {
            Some(d) => d.wf(),
            None => true,
        }
    }

    /// A mapping bound to a date format strategy, with every option left at
    /// the store's default.
    pub fn of<F: DateFormat>() -> (r: DateMapping)
        ensures
            r.format@ == F::spec_name(),
            r.boost is None,
            r.doc_values is None,
            r.include_in_all is None,
            r.index is None,
            r.store is None,
            r.ignore_malformed is None,
            r.null_value is None,
            r.wf(),
    {
        DateMapping {
            format: F::name(),
            boost: None,
            doc_values: None,
            include_in_all: None,
            index: None,
            store: None,
            ignore_malformed: None,
            null_value: None,
        }
    }

    /// Emits the mapping as a JSON object.
    pub fn to_json(&self) -> (r: Json)
        requires
            self.wf(),
        ensures
            r.wf(),
            r.spec_text() == date_mapping_text(*self),
    {
        let mut es: Vec<(String, Json)> = Vec::new();
        push_entry(&mut es, "type", Json::Str(String::from_str("date")));
        push_entry(&mut es, "format", Json::Str(self.format.clone()));
        push_opt_num(&mut es, "boost", self.boost);
        push_opt_bool(&mut es, "doc_values", self.doc_values);
        push_opt_bool(&mut es, "include_in_all", self.include_in_all);
        push_opt_bool(&mut es, "index", self.index);
        push_opt_bool(&mut es, "store", self.store);
        push_opt_bool(&mut es, "ignore_malformed", self.ignore_malformed);
        push_opt_str(&mut es, "null_value", &self.null_value);
        Json::Object(es)
    }
}

impl FieldMapping for DateMapping {
    open spec fn spec_data_type(&self) -> Seq<char> {
        "date"@
    }

    fn data_type(&self) -> (r: String) {
        String::from_str("date")
    }
}

/// The text of every option after `boost`, in emission order.
pub open spec fn date_mapping_suffix(m: DateMapping) -> Seq<char> {
    opt_bool_text("doc_values"@, m.doc_values) + opt_bool_text("include_in_all"@, m.include_in_all)
        + opt_bool_text("index"@, m.index) + opt_bool_text("store"@, m.store) + opt_bool_text(
        "ignore_malformed"@,
        m.ignore_malformed,
    ) + opt_str_text("null_value"@, opt_view(m.null_value))
}

/// Overriding one option changes only that option's segment of the emitted
/// schema: two date mappings differing only in `boost` emit the same text
/// before and after the `boost` entry.
pub proof fn lemma_date_boost_independent(m1: DateMapping, m2: DateMapping)
    requires
        m1.format == m2.format,
        m1.doc_values == m2.doc_values,
        m1.include_in_all == m2.include_in_all,
        m1.index == m2.index,
        m1.store == m2.store,
        m1.ignore_malformed == m2.ignore_malformed,
        m1.null_value == m2.null_value,
    ensures
        date_mapping_entries_text(m1) == (date_type_format_text(m1) + opt_num_text(
            "boost"@,
            m1.boost,
        )) + date_mapping_suffix(m1),
        date_mapping_entries_text(m2) == (date_type_format_text(m2) + opt_num_text(
            "boost"@,
            m2.boost,
        )) + date_mapping_suffix(m2),
        date_type_format_text(m1) == date_type_format_text(m2),
        date_mapping_suffix(m1) == date_mapping_suffix(m2),
{
    lemma_date_entries_regroup(m1);
    lemma_date_entries_regroup(m2);
}

/// A date mapping's entry text splits into everything up to `boost` and
/// everything after it.
proof fn lemma_date_entries_regroup(m: DateMapping)
    ensures
        date_mapping_entries_text(m) == (date_type_format_text(m) + opt_num_text(
            "boost"@,
            m.boost,
        )) + date_mapping_suffix(m),
{
    let x = date_type_format_text(m) + opt_num_text("boost"@, m.boost);
    let o1 = opt_bool_text("doc_values"@, m.doc_values);
    let o2 = opt_bool_text("include_in_all"@, m.include_in_all);
    let o3 = opt_bool_text("index"@, m.index);
    let o4 = opt_bool_text("store"@, m.store);
    let o5 = opt_bool_text("ignore_malformed"@, m.ignore_malformed);
    let o6 = opt_str_text("null_value"@, opt_view(m.null_value));
    vstd::seq_lib::lemma_concat_associative(x, o1, o2);
    vstd::seq_lib::lemma_concat_associative(x, o1 + o2, o3);
    vstd::seq_lib::lemma_concat_associative(x, (o1 + o2) + o3, o4);
    vstd::seq_lib::lemma_concat_associative(x, ((o1 + o2) + o3) + o4, o5);
    vstd::seq_lib::lemma_concat_associative(x, (((o1 + o2) + o3) + o4) + o5, o6);
}

} // verus!
