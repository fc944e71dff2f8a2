//! Options for an `ip` field, which holds a version-four address.

use vstd::prelude::*;

use crate::field::FieldMapping;
use crate::json::{
    lemma_append_empty, opt_bool_text, opt_num_text, push_entry, push_opt_bool, push_opt_num,
    quoted, Decimal, Json,
};
use crate::text::{dec_nat, push_char, push_u64_dec};

verus! {

/// The marker selecting the `ip` schema shape for an address-valued field.
#[derive(PartialEq, Eq, Structural, Debug, Default, Clone, Copy)]
pub struct IpFormat;

/// A version-four address as four plain octets.
#[derive(PartialEq, Eq, Structural, Debug, Clone, Copy)]
pub struct Ipv4 {
    /// The leftmost octet.
    pub a: u8,
    /// The second octet.
    pub b: u8,
    /// The third octet.
    pub c: u8,
    /// The rightmost octet.
    pub d: u8,
}

/// The dotted text of an address.
pub open spec fn ipv4_text(ip: Ipv4) -> Seq<char> {
    (((((dec_nat(ip.a as int) + seq!['.']) + dec_nat(ip.b as int)) + seq!['.']) + dec_nat(
        ip.c as int,
    )) + seq!['.']) + dec_nat(ip.d as int)
}

impl Ipv4 {
    /// An address from its four octets, highest first.
    pub fn new(a: u8, b: u8, c: u8, d: u8) -> (r: Ipv4)
        ensures
            r == (Ipv4 { a, b, c, d }),
    {
        Ipv4 { a, b, c, d }
    }

    /// The dotted text of the address.
    pub fn to_text(&self) -> (r: String)
        ensures
            r@ == ipv4_text(*self),
    {
        let mut out = String::new();
        push_u64_dec(&mut out, self.a as u64);
        push_char(&mut out, '.');
        push_u64_dec(&mut out, self.b as u64);
        push_char(&mut out, '.');
        push_u64_dec(&mut out, self.c as u64);
        push_char(&mut out, '.');
        push_u64_dec(&mut out, self.d as u64);
        out
    }
}

/// Options for an `ip` field.
#[derive(Debug, Clone)]
pub struct IpMapping {
    /// Index-time boosting; the store's default is one.
    pub boost: Option<Decimal>,
    /// Column-stride storage; the store's default is on.
    pub doc_values: Option<bool>,
    /// Whether the field is searchable; the store's default is on.
    pub index: Option<bool>,
    /// Separate retrievable storage; the store's default is off.
    pub store: Option<bool>,
    /// Substitute for explicit nulls; by default the field is then missing.
    pub null_value: Option<Ipv4>,
}

/// The text an optional address option contributes: nothing, or a comma and
/// its entry holding the dotted address in quotes.
pub open spec fn opt_ipv4_text(key: Seq<char>, o: Option<Ipv4>) -> Seq<char> {
    match o {
        None => Seq::<char>::empty(),
        Some(ip) => ((seq![','] + quoted(key)) + seq![':']) + quoted(ipv4_text(ip)),
    }
}

/// The exact schema text an ip mapping emits: the kind, then each option
/// that was overridden, in a fixed order.
pub open spec fn ip_mapping_text(m: IpMapping) -> Seq<char> {
    seq!['{'] + (((((((quoted("type"@) + seq![':']) + quoted("ip"@)) + opt_num_text(
        "boost"@,
        m.boost,
    )) + opt_bool_text("doc_values"@, m.doc_values)) + opt_bool_text("index"@, m.index))
        + opt_bool_text("store"@, m.store)) + opt_ipv4_text("null_value"@, m.null_value))
        + seq!['}']
}

impl IpMapping {
    /// Whether every overridden number can be rendered.
    pub open spec fn wf(self) -> bool {
        match self.boost {
            Some(d) => d.wf(),
            None => true,
        }
    }

    /// A configuration leaving every option at the store's default.
    pub fn new() -> (r: IpMapping)
        ensures
            r.boost is None,
            r.doc_values is None,
            r.index is None,
            r.store is None,
            r.null_value is None,
            r.wf(),
    {
        IpMapping { boost: None, doc_values: None, index: None, store: None, null_value: None }
    }

    /// Emits the mapping as a JSON object.
    pub fn to_json(&self) -> (r: Json)
        requires
            self.wf(),
        ensures
            r.wf(),
            r.spec_text() == ip_mapping_text(*self),
    {
        let mut es: Vec<(String, Json)> = Vec::new();
        push_entry(&mut es, "type", Json::Str(String::from_str("ip")));
        push_opt_num(&mut es, "boost", self.boost);
        push_opt_bool(&mut es, "doc_values", self.doc_values);
        push_opt_bool(&mut es, "index", self.index);
        push_opt_bool(&mut es, "store", self.store);
        if let Some(ip) = self.null_value {
            push_entry(&mut es, "null_value", Json::Str(ip.to_text()));
        } else {
            proof {
                lemma_append_empty(crate::json::entries_text(es@));
            }
        }
        Json::Object(es)
    }
}

impl FieldMapping for IpMapping {
    open spec fn spec_data_type(&self) -> Seq<char> {
        "ip"@
    }

    fn data_type(&self) -> (r: String) {
        String::from_str("ip")
    }
}

/// Everything an ip mapping emits after its `boost` entry.
pub open spec fn ip_mapping_suffix(m: IpMapping) -> Seq<char> {
    ((opt_bool_text("doc_values"@, m.doc_values) + opt_bool_text("index"@, m.index))
        + opt_bool_text("store"@, m.store)) + opt_ipv4_text("null_value"@, m.null_value)
}

/// Overriding one option changes only that option's segment of the emitted
/// schema: two ip mappings differing only in `boost` emit the same text
/// before and after the `boost` entry.
pub proof fn lemma_ip_boost_independent(m1: IpMapping, m2: IpMapping)
    requires
        m1.doc_values == m2.doc_values,
        m1.index == m2.index,
        m1.store == m2.store,
        m1.null_value == m2.null_value,
    ensures
        ip_mapping_text(m1) == (seq!['{'] + (((quoted("type"@) + seq![':']) + quoted("ip"@))
            + opt_num_text("boost"@, m1.boost)) + ip_mapping_suffix(m1)) + seq!['}'],
        ip_mapping_text(m2) == (seq!['{'] + (((quoted("type"@) + seq![':']) + quoted("ip"@))
            + opt_num_text("boost"@, m2.boost)) + ip_mapping_suffix(m2)) + seq!['}'],
        ip_mapping_suffix(m1) == ip_mapping_suffix(m2),
{
    lemma_ip_entries_regroup(m1);
    lemma_ip_entries_regroup(m2);
}

/// An ip mapping's text splits into everything up to `boost` and everything
/// after it.
proof fn lemma_ip_entries_regroup(m: IpMapping)
    ensures
        ip_mapping_text(m) == (seq!['{'] + (((quoted("type"@) + seq![':']) + quoted("ip"@))
            + opt_num_text("boost"@, m.boost)) + ip_mapping_suffix(m)) + seq!['}'],
{
    let x = ((quoted("type"@) + seq![':']) + quoted("ip"@)) + opt_num_text("boost"@, m.boost);
    let o1 = opt_bool_text("doc_values"@, m.doc_values);
    let o2 = opt_bool_text("index"@, m.index);
    let o3 = opt_bool_text("store"@, m.store);
    let o4 = opt_ipv4_text("null_value"@, m.null_value);
    vstd::seq_lib::lemma_concat_associative(x, o1, o2);
    vstd::seq_lib::lemma_concat_associative(x, o1 + o2, o3);
    vstd::seq_lib::lemma_concat_associative(x, (o1 + o2) + o3, o4);
    vstd::seq_lib::lemma_concat_associative(
        seq!['{'],
        x,
        ((o1 + o2) + o3) + o4,
    );
}

/// The default mapping for an address field: every option left at the
/// store's default.
#[derive(PartialEq, Eq, Structural, Debug, Default, Clone, Copy)]
pub struct DefaultIpMapping;

impl DefaultIpMapping {
    /// The options this default stands for.
    pub fn mapping() -> (r: IpMapping)
        ensures
            r.boost is None,
            r.doc_values is None,
            r.index is None,
            r.store is None,
            r.null_value is None,
            r.wf(),
    {
        IpMapping::new()
    }
}

} // verus!
