//! Document schemas: ordered named fields, their assembly into the wire
//! mapping, and the derivation that turns field declarations into a schema.
//!
//! A structured type used as a field of another document emits
//! `"type":"nested"` (or `"object"` when overridden) with its own recursive
//! `properties`; the same schema used as a whole-index root emits only
//! `{"properties":{...}}`. Field order is declaration order everywhere.

use vstd::prelude::*;

use crate::date::mapping::{date_mapping_text, DateMapping};
use crate::field::{
    boolean_mapping_text, geo_point_mapping_text, geo_shape_mapping_text, integer_mapping_text,
    keyword_mapping_text, text_mapping_text, BooleanMapping, GeoPointMapping, GeoShapeMapping,
    IntegerMapping, KeywordMapping, TextMapping,
};
use crate::ip::mapping::{ip_mapping_text, IpMapping};
use crate::json::{
    bool_text, entries_text, entries_wf, lemma_append_empty, opt_bool_text, push_entry,
    push_opt_bool, quoted, Json,
};

verus! {

/// The two schema kinds a structured sub-value can take.
#[derive(PartialEq, Eq, Structural, Debug, Clone, Copy)]
pub enum DocumentKind {
    /// An inner object indexed as part of its parent.
    Object,
    /// A nested document indexed independently.
    Nested,
}

/// The kind keyword emitted for a document kind.
pub open spec fn document_kind_text(k: DocumentKind) -> Seq<char> {
    match k {
        DocumentKind::Object => "object"@,
        DocumentKind::Nested => "nested"@,
    }
}

/// The `dynamic` setting of a document: whether fields the store has not
/// seen before are added, ignored, or rejected.
#[derive(PartialEq, Eq, Structural, Debug, Clone, Copy)]
pub enum Dynamic {
    /// Newly seen fields are added to the mapping.
    True,
    /// Newly seen fields are ignored; new fields must be added explicitly.
    False,
    /// Newly seen fields reject the document.
    Strict,
}

/// The wire value of a `dynamic` setting: a boolean, or the word `strict`.
pub open spec fn dynamic_text(d: Dynamic) -> Seq<char> {
    match d {
        Dynamic::True => bool_text(true),
        Dynamic::False => bool_text(false),
        Dynamic::Strict => quoted("strict"@),
    }
}

impl Dynamic {
    /// Emits the setting's wire value.
    pub fn to_json(&self) -> (r: Json)
        ensures
            r.wf(),
            r.spec_text() == dynamic_text(*self),
    {
        match self {
            Dynamic::True => Json::Bool(true),
            Dynamic::False => Json::Bool(false),
            Dynamic::Strict => Json::Str(String::from_str("strict")),
        }
    }
}

/// The resolved mapping of one field: a leaf kind with its options, or a
/// whole structured document nested one level deeper.
#[derive(Debug)]
pub enum FieldSchema {
    /// A `date` field.
    Date(DateMapping),
    /// An `ip` field.
    Ip(IpMapping),
    /// A `boolean` field.
    Boolean(BooleanMapping),
    /// A `text` field.
    Text(TextMapping),
    /// A `keyword` field.
    Keyword(KeywordMapping),
    /// An `integer` field.
    Integer(IntegerMapping),
    /// A `geo_point` field.
    GeoPoint(GeoPointMapping),
    /// A `geo_shape` field.
    GeoShape(GeoShapeMapping),
    /// A structured document used as a field.
    Doc(DocumentMapping),
}

/// A named, resolved field of a document schema.
#[derive(Debug)]
pub struct DocumentField {
    /// The wire-visible key, after any rename.
    pub name: String,
    /// The field's resolved mapping.
    pub mapping: FieldSchema,
}

/// A document schema: the ordered fields of a structured type, with its
/// document-level settings.
#[derive(Debug)]
pub struct DocumentMapping {
    /// The indexed name of the document type.
    pub name: String,
    /// How the document is indexed when used as a field of a parent.
    pub data_type: DocumentKind,
    /// The `dynamic` setting, where overridden.
    pub dynamic: Option<Dynamic>,
    /// The `enabled` setting, where overridden; emitted only for `object`.
    pub enabled: Option<bool>,
    /// The `include_in_all` setting, where overridden.
    pub include_in_all: Option<bool>,
    /// The fields, in declaration order.
    pub properties: Vec<DocumentField>,
}

/// The format marker a structured document takes when it stands as a field
/// of a parent: it selects the document schema shape for the field.
#[derive(PartialEq, Eq, Structural, Debug, Default, Clone, Copy)]
pub struct DocumentFormat;

/// A whole-index schema root: the same document schema, emitted without the
/// kind and settings that only make sense for a field of a parent.
#[derive(Debug)]
pub struct Document {
    /// The schema this root wraps.
    pub mapping: DocumentMapping,
}

impl FieldSchema {
    /// Whether every number in the mapping can be rendered.
    pub open spec fn wf(self) -> bool
        decreases self,
    {
        match self {
            FieldSchema::Date(m) => m.wf(),
            FieldSchema::Ip(m) => m.wf(),
            FieldSchema::Boolean(m) => m.wf(),
            FieldSchema::Text(m) => m.wf(),
            FieldSchema::Keyword(_) => true,
            FieldSchema::Integer(_) => true,
            FieldSchema::GeoPoint(_) => true,
            FieldSchema::GeoShape(_) => true,
            FieldSchema::Doc(m) => m.wf(),
        }
    }
}

/// Whether every field of a sequence has a renderable mapping.
pub open spec fn fields_wf(fs: Seq<DocumentField>) -> bool
    decreases fs,
{
    if fs.len() == 0 {
        true
    } else {
        fs[0].mapping.wf() && fields_wf(fs.skip(1))
    }
}

impl DocumentMapping {
    /// Whether every number in the schema can be rendered.
    pub open spec fn wf(self) -> bool
        decreases self,
    {
        fields_wf(self.properties@)
    }

    /// A schema with no fields yet: nested by default, every setting left
    /// at the store's default.
    pub fn new(name: String) -> (r: DocumentMapping)
        ensures
            r.name@ == name@,
            r.data_type == DocumentKind::Nested,
            r.dynamic is None,
            r.enabled is None,
            r.include_in_all is None,
            r.properties@.len() == 0,
            r.wf(),
    {
        DocumentMapping {
            name,
            data_type: DocumentKind::Nested,
            dynamic: None,
            enabled: None,
            include_in_all: None,
            properties: Vec::new(),
        }
    }
}

/// The text of a document's field entries: the first bare, the rest
/// comma-prefixed, in declaration order.
pub open spec fn properties_entries_text(fs: Seq<DocumentField>) -> Seq<char>
    decreases fs, 0int,
{
    if fs.len() == 0 {
        Seq::<char>::empty()
    } else {
        ((quoted(fs[0].name@) + seq![':']) + field_schema_text(fs[0].mapping))
            + properties_tail_text(fs.skip(1))
    }
}

/// The text of field entries after the first: each preceded by a comma.
pub open spec fn properties_tail_text(fs: Seq<DocumentField>) -> Seq<char>
    decreases fs, 0int,
{
    if fs.len() == 0 {
        Seq::<char>::empty()
    } else {
        (((seq![','] + quoted(fs[0].name@)) + seq![':']) + field_schema_text(fs[0].mapping))
            + properties_tail_text(fs.skip(1))
    }
}

/// The `properties` object of a document schema.
pub open spec fn properties_text(fs: Seq<DocumentField>) -> Seq<char>
    decreases fs, 1int,
{
    seq!['{'] + properties_entries_text(fs) + seq!['}']
}

/// The text a `dynamic` setting contributes: nothing, or a comma and its
/// entry.
pub open spec fn opt_dynamic_text(o: Option<Dynamic>) -> Seq<char> {
    match o {
        None => Seq::<char>::empty(),
        Some(d) => ((seq![','] + quoted("dynamic"@)) + seq![':']) + dynamic_text(d),
    }
}

/// The text the `enabled` setting contributes: its entry only for an
/// `object` document; a nested document never takes `enabled`.
pub open spec fn opt_enabled_text(m: DocumentMapping) -> Seq<char>
    decreases m,
{
    if m.data_type == DocumentKind::Object {
        opt_bool_text("enabled"@, m.enabled)
    } else {
        Seq::<char>::empty()
    }
}

/// The exact text a field's resolved mapping emits.
pub open spec fn field_schema_text(fs: FieldSchema) -> Seq<char>
    decreases fs, 0int,
{
    match fs {
        FieldSchema::Date(m) => date_mapping_text(m),
        FieldSchema::Ip(m) => ip_mapping_text(m),
        FieldSchema::Boolean(m) => boolean_mapping_text(m),
        FieldSchema::Text(m) => text_mapping_text(m),
        FieldSchema::Keyword(m) => keyword_mapping_text(m),
        FieldSchema::Integer(m) => integer_mapping_text(m),
        FieldSchema::GeoPoint(m) => geo_point_mapping_text(m),
        FieldSchema::GeoShape(m) => geo_shape_mapping_text(m),
        FieldSchema::Doc(m) => document_field_text(m),
    }
}

/// The exact text a document schema emits when it stands as a field of a
/// parent document: its kind, its overridden settings, and its recursive
/// `properties`.
pub open spec fn document_field_text(m: DocumentMapping) -> Seq<char>
    decreases m, 1int,
{
    seq!['{'] + (((((quoted("type"@) + seq![':']) + quoted(document_kind_text(m.data_type)))
        + opt_dynamic_text(m.dynamic)) + opt_bool_text("include_in_all"@, m.include_in_all)
        + opt_enabled_text(m)) + (((seq![','] + quoted("properties"@)) + seq![':'])
        + properties_text(m.properties@))) + seq!['}']
}

/// The exact text a document schema emits as a whole-index root: only its
/// `properties`, with no kind or settings.
pub open spec fn document_root_text(m: DocumentMapping) -> Seq<char> {
    seq!['{'] + ((quoted("properties"@) + seq![':']) + properties_text(m.properties@)) + seq!['}']
}

/// Every field of a well-formed field sequence is well-formed.
pub proof fn lemma_fields_wf_index(fs: Seq<DocumentField>, i: int)
    requires
        fields_wf(fs),
        0 <= i < fs.len(),
    ensures
        fs[i].mapping.wf(),
    decreases i,
{
    if i > 0 {
        lemma_fields_wf_index(fs.skip(1), i - 1);
        assert(fs.skip(1)[i - 1] == fs[i]);
    }
}

/// Comma-prefixed field entry text distributes over concatenation.
proof fn lemma_properties_tail_append(a: Seq<DocumentField>, b: Seq<DocumentField>)
    ensures
        properties_tail_text(a + b) == properties_tail_text(a) + properties_tail_text(b),
    decreases a.len(),
{
    if a.len() == 0 {
        assert(a + b =~= b);
        assert(properties_tail_text(a) + properties_tail_text(b) =~= properties_tail_text(b));
    } else {
        lemma_properties_tail_append(a.skip(1), b);
        assert((a + b).skip(1) =~= a.skip(1) + b);
        assert((a + b)[0] == a[0]);
        let h = ((seq![','] + quoted(a[0].name@)) + seq![':']) + field_schema_text(a[0].mapping);
        vstd::seq_lib::lemma_concat_associative(
            h,
            properties_tail_text(a.skip(1)),
            properties_tail_text(b),
        );
    }
}

/// Reading one more field extends the field entry text by its entry, with a
/// comma unless it is the first.
proof fn lemma_properties_take_step(fs: Seq<DocumentField>, i: int)
    requires
        0 <= i < fs.len(),
    ensures
        properties_entries_text(fs.take(i + 1)) == if i == 0 {
            (quoted(fs[0].name@) + seq![':']) + field_schema_text(fs[0].mapping)
        } else {
            properties_entries_text(fs.take(i)) + (((seq![','] + quoted(fs[i].name@)) + seq![':'])
                + field_schema_text(fs[i].mapping))
        },
{
    let a = fs.take(i);
    let e = fs[i];
    assert(fs.take(i + 1) =~= a + seq![e]);
    if i == 0 {
        assert((a + seq![e])[0] == e);
        assert((a + seq![e]).skip(1) =~= Seq::<DocumentField>::empty());
    } else {
        assert((a + seq![e])[0] == a[0]);
        assert((a + seq![e]).skip(1) =~= a.skip(1) + seq![e]);
        lemma_properties_tail_append(a.skip(1), seq![e]);
        assert(properties_tail_text(seq![e]) == (((seq![','] + quoted(e.name@)) + seq![':'])
            + field_schema_text(e.mapping)) + properties_tail_text(Seq::<DocumentField>::empty()))
            by {
            assert(seq![e].skip(1) =~= Seq::<DocumentField>::empty());
        };
        let h0 = (quoted(a[0].name@) + seq![':']) + field_schema_text(a[0].mapping);
        let he = ((seq![','] + quoted(e.name@)) + seq![':']) + field_schema_text(e.mapping);
        lemma_append_empty(he);
        vstd::seq_lib::lemma_concat_associative(h0, properties_tail_text(a.skip(1)), he);
    }
}

impl FieldSchema {
    /// Emits the field's mapping as a JSON object.
    pub fn to_json(&self) -> (r: Json)
        requires
            self.wf(),
        ensures
            r.wf(),
            r.spec_text() == field_schema_text(*self),
        decreases *self,
    {
        match self {
            FieldSchema::Date(m) => m.to_json(),
            FieldSchema::Ip(m) => m.to_json(),
            FieldSchema::Boolean(m) => m.to_json(),
            FieldSchema::Text(m) => m.to_json(),
            FieldSchema::Keyword(m) => m.to_json(),
            FieldSchema::Integer(m) => m.to_json(),
            FieldSchema::GeoPoint(m) => m.to_json(),
            FieldSchema::GeoShape(m) => m.to_json(),
            FieldSchema::Doc(m) => {
                proof {
                    assert(decreases_to!(*self => self->Doc_0));
                }
                m.to_field_json()
            },
        }
    }
}

impl DocumentMapping {
    /// Emits the schema's `properties` object: one entry per field, in
    /// declaration order.
    fn properties_json(&self) -> (r: Json)
        requires
            self.wf(),
        ensures
            r.wf(),
            r.spec_text() == properties_text(self.properties@),
        decreases *self, 1int,
    {
        let fields = &self.properties;
        let mut es: Vec<(String, Json)> = Vec::new();
        let n = fields.len();
        let mut i: usize = 0;
        while i < n
            invariant
                n == fields@.len(),
                i <= n,
                es@.len() == i,
                fields_wf(fields@),
                entries_wf(es@),
                entries_text(es@) == properties_entries_text(fields@.take(i as int)),
                *fields == self.properties,
                self.wf(),
            decreases n - i,
        {
            proof {
                if i == 0 {
                    assert(fields@.take(0) =~= Seq::<DocumentField>::empty());
                }
                lemma_properties_take_step(fields@, i as int);
                lemma_fields_wf_index(fields@, i as int);
                assert(decreases_to!(*self => self.properties));
                assert(decreases_to!(self.properties => self.properties@));
                assert(decreases_to!(self.properties@ => self.properties@[i as int]));
                assert(decreases_to!(self.properties@[i as int] => self.properties@[i as int].mapping));
            }
            let f = &fields[i];
            push_entry(&mut es, f.name.as_str(), f.mapping.to_json());
            i = i + 1;
        }
        proof {
            assert(fields@.take(n as int) =~= fields@);
        }
        Json::Object(es)
    }

    /// Emits the schema as it stands when the document is a field of a
    /// parent: kind, overridden settings, and recursive `properties`.
    pub fn to_field_json(&self) -> (r: Json)
        requires
            self.wf(),
        ensures
            r.wf(),
            r.spec_text() == document_field_text(*self),
        decreases *self, 2int,
    {
        let mut es: Vec<(String, Json)> = Vec::new();
        let kind = match self.data_type {
            DocumentKind::Object => String::from_str("object"),
            DocumentKind::Nested => String::from_str("nested"),
        };
        push_entry(&mut es, "type", Json::Str(kind));
        if let Some(d) = self.dynamic {
            push_entry(&mut es, "dynamic", d.to_json());
        } else {
            proof {
                lemma_append_empty(entries_text(es@));
            }
        }
        push_opt_bool(&mut es, "include_in_all", self.include_in_all);
        if matches!(self.data_type, DocumentKind::Object) {
            push_opt_bool(&mut es, "enabled", self.enabled);
        } else {
            proof {
                lemma_append_empty(entries_text(es@));
            }
        }
        push_entry(&mut es, "properties", self.properties_json());
        Json::Object(es)
    }
}

/// An error that stops schema derivation at registration time, before the
/// schema can reach the store.
#[derive(Debug, Clone)]
pub enum DerivationError {
    /// Two declared fields resolved to one emitted name; the name is
    /// carried here.
    DuplicateField(String),
}

/// One declared field of a structured type, as derivation consumes it.
#[derive(Debug)]
pub struct FieldDecl {
    /// The field's own identifier.
    pub name: String,
    /// A declared alias that replaces the identifier as the wire key.
    pub rename: Option<String>,
    /// Never serialized at all: left out of the schema entirely.
    pub skip: bool,
    /// Left out when serializing values only; still mapped in the schema.
    pub skip_serializing: bool,
    /// Left out when deserializing values only; still mapped in the schema.
    pub skip_deserializing: bool,
    /// The field's resolved mapping.
    pub mapping: FieldSchema,
}

/// Whether a declared field appears in the schema: only fields marked never
/// serialized are left out; fields skipped in one direction of the data
/// payload are still mapped.
pub open spec fn included(d: FieldDecl) -> bool {
    !d.skip
}

/// The wire key a declared field resolves to: its alias where one was
/// declared, else its own identifier.
pub open spec fn resolved_name(d: FieldDecl) -> Seq<char> {
    match d.rename {
        Some(r) => r@,
        None => d.name@,
    }
}

/// The named mappings derivation produces: the included declarations, in
/// declaration order, each under its resolved name.
pub open spec fn derived_props(ds: Seq<FieldDecl>) -> Seq<(Seq<char>, FieldSchema)>
    decreases ds,
{
    if ds.len() == 0 {
        Seq::<(Seq<char>, FieldSchema)>::empty()
    } else {
        let rest = derived_props(ds.skip(1));
        if included(ds[0]) {
            seq![(resolved_name(ds[0]), ds[0].mapping)] + rest
        } else {
            rest
        }
    }
}

/// The resolved names derivation produces, in order.
pub open spec fn derived_names(ds: Seq<FieldDecl>) -> Seq<Seq<char>>
    decreases ds,
{
    if ds.len() == 0 {
        Seq::<Seq<char>>::empty()
    } else {
        let rest = derived_names(ds.skip(1));
        if included(ds[0]) {
            seq![resolved_name(ds[0])] + rest
        } else {
            rest
        }
    }
}

/// Whether two positions of a name sequence hold one name.
pub open spec fn has_duplicate(ns: Seq<Seq<char>>) -> bool {
    exists|i: int, j: int| 0 <= i < j < ns.len() && ns[i] == ns[j]
}

/// Derivation distributes over concatenated declaration lists.
pub proof fn lemma_derived_append(a: Seq<FieldDecl>, b: Seq<FieldDecl>)
    ensures
        derived_props(a + b) == derived_props(a) + derived_props(b),
        derived_names(a + b) == derived_names(a) + derived_names(b),
    decreases a.len(),
{
    if a.len() == 0 {
        assert(a + b =~= b);
        assert(derived_props(a) + derived_props(b) =~= derived_props(b));
        assert(derived_names(a) + derived_names(b) =~= derived_names(b));
    } else {
        lemma_derived_append(a.skip(1), b);
        assert((a + b).skip(1) =~= a.skip(1) + b);
        assert((a + b)[0] == a[0]);
        if included(a[0]) {
            assert(seq![(resolved_name(a[0]), a[0].mapping)] + (derived_props(a.skip(1))
                + derived_props(b)) =~= (seq![(resolved_name(a[0]), a[0].mapping)] + derived_props(
                a.skip(1),
            )) + derived_props(b));
            assert(seq![resolved_name(a[0])] + (derived_names(a.skip(1)) + derived_names(b)) =~= (
            seq![resolved_name(a[0])] + derived_names(a.skip(1))) + derived_names(b));
        }
    }
}

/// One more declaration extends the derived names and mappings by its own,
/// or by nothing when it is excluded.
proof fn lemma_derived_take_step(ds: Seq<FieldDecl>, k: int)
    requires
        0 <= k < ds.len(),
    ensures
        included(ds[k]) ==> derived_props(ds.take(k + 1)) == derived_props(ds.take(k)).push(
            (resolved_name(ds[k]), ds[k].mapping),
        ) && derived_names(ds.take(k + 1)) == derived_names(ds.take(k)).push(resolved_name(ds[k])),
        !included(ds[k]) ==> derived_props(ds.take(k + 1)) == derived_props(ds.take(k))
            && derived_names(ds.take(k + 1)) == derived_names(ds.take(k)),
{
    let a = ds.take(k);
    let e = ds[k];
    assert(ds.take(k + 1) =~= a + seq![e]);
    lemma_derived_append(a, seq![e]);
    assert(seq![e].skip(1) =~= Seq::<FieldDecl>::empty());
    assert(seq![e][0] == e);
    assert(derived_props(Seq::<FieldDecl>::empty()) == Seq::<(Seq<char>, FieldSchema)>::empty());
    assert(derived_names(Seq::<FieldDecl>::empty()) == Seq::<Seq<char>>::empty());
    if included(e) {
        assert(derived_props(seq![e]) =~= seq![(resolved_name(e), e.mapping)]);
        assert(derived_names(seq![e]) =~= seq![resolved_name(e)]);
        assert(derived_props(a) + seq![(resolved_name(e), e.mapping)] =~= derived_props(a).push(
            (resolved_name(e), e.mapping),
        ));
        assert(derived_names(a) + seq![resolved_name(e)] =~= derived_names(a).push(
            resolved_name(e),
        ));
    } else {
        assert(derived_props(seq![e]) =~= Seq::<(Seq<char>, FieldSchema)>::empty());
        assert(derived_names(seq![e]) =~= Seq::<Seq<char>>::empty());
        assert(derived_props(a) + derived_props(seq![e]) =~= derived_props(a));
        assert(derived_names(a) + derived_names(seq![e]) =~= derived_names(a));
    }
}

/// A name sequence with a duplicate keeps it under any extension.
proof fn lemma_duplicate_extends(a: Seq<Seq<char>>, b: Seq<Seq<char>>)
    requires
        has_duplicate(a),
    ensures
        has_duplicate(a + b),
{
    let (i, j) = choose|i: int, j: int| 0 <= i < j < a.len() && a[i] == a[j];
    assert((a + b)[i] == a[i]);
    assert((a + b)[j] == a[j]);
}

/// Appending a fresh name keeps a name sequence duplicate-free; appending a
/// seen one creates a duplicate.
proof fn lemma_duplicate_push(ns: Seq<Seq<char>>, n: Seq<char>)
    ensures
        has_duplicate(ns.push(n)) <==> has_duplicate(ns) || exists|i: int|
            0 <= i < ns.len() && ns[i] == n,
{
    if has_duplicate(ns) {
        let (i, j) = choose|i: int, j: int| 0 <= i < j < ns.len() && ns[i] == ns[j];
        assert(ns.push(n)[i] == ns[i]);
        assert(ns.push(n)[j] == ns[j]);
    }
    if exists|i: int| 0 <= i < ns.len() && ns[i] == n {
        let i = choose|i: int| 0 <= i < ns.len() && ns[i] == n;
        assert(ns.push(n)[i] == ns[i]);
        assert(ns.push(n)[ns.len() as int] == n);
    }
    if has_duplicate(ns.push(n)) && !has_duplicate(ns) {
        let (i, j) = choose|i: int, j: int| 0 <= i < j < ns.push(n).len() && ns.push(n)[i]
            == ns.push(n)[j];
        if j < ns.len() {
            assert(ns[i] == ns[j]);
        } else {
            assert(ns[i] == n);
        }
    }
}

/// Derives a document schema from a structured type's declared fields:
/// excluded fields are dropped, names are resolved through their aliases,
/// order is declaration order, and two fields resolving to one name stop
/// the derivation with an error naming the clash.
pub fn derive_document(name: String, decls: Vec<FieldDecl>) -> (r: Result<
    DocumentMapping,
    DerivationError,
>)
    ensures
        match r {
            Ok(doc) => {
                &&& !has_duplicate(derived_names(decls@))
                &&& doc.name@ == name@
                &&& doc.data_type == DocumentKind::Nested
                &&& doc.dynamic is None
                &&& doc.enabled is None
                &&& doc.include_in_all is None
                &&& doc.properties@.len() == derived_props(decls@).len()
                &&& forall|i: int|
                    0 <= i < doc.properties@.len() ==> (#[trigger] doc.properties@[i]).name@
                        == derived_props(decls@)[i].0 && doc.properties@[i].mapping == derived_props(
                        decls@,
                    )[i].1
            },
            Err(DerivationError::DuplicateField(n)) => {
                &&& has_duplicate(derived_names(decls@))
                &&& exists|i: int, j: int|
                    0 <= i < j < derived_names(decls@).len() && derived_names(decls@)[i]
                        == derived_names(decls@)[j] && derived_names(decls@)[j] == n@
            },
        },
{
    let ghost orig = decls@;
    let mut rest = decls;
    let total = rest.len();
    let mut props: Vec<DocumentField> = Vec::new();
    let mut k: usize = 0;
    proof {
        assert(orig.len() == total);
        assert(orig.take(0) =~= Seq::<FieldDecl>::empty());
        assert(orig.skip(0) =~= orig);
    }
    while rest.len() > 0
        invariant
            orig == decls@,
            k <= orig.len(),
            orig.len() <= usize::MAX,
            rest@ =~= orig.skip(k as int),
            props@.len() == derived_props(orig.take(k as int)).len(),
            forall|i: int|
                0 <= i < props@.len() ==> (#[trigger] props@[i]).name@ == derived_props(
                    orig.take(k as int),
                )[i].0 && props@[i].mapping == derived_props(orig.take(k as int))[i].1,
            !has_duplicate(derived_names(orig.take(k as int))),
            derived_names(orig.take(k as int)).len() == props@.len(),
            forall|i: int|
                0 <= i < props@.len() ==> (#[trigger] props@[i]).name@ == derived_names(
                    orig.take(k as int),
                )[i],
        decreases rest@.len(),
    {
        proof {
            assert(orig.skip(k as int).len() == orig.len() - k);
        }
        let d = rest.remove(0);
        proof {
            assert(orig.skip(k as int)[0] == orig[k as int]);
            assert(orig.skip(k as int).skip(1) =~= orig.skip(k + 1));
            lemma_derived_take_step(orig, k as int);
        }
        if !d.skip {
            let field_name = match d.rename {
                Some(r) => r,
                None => d.name,
            };
            let mut j: usize = 0;
            while j < props.len()
                invariant
                    orig == decls@,
                    j <= props@.len(),
                    k < orig.len() <= usize::MAX,
                    field_name@ == resolved_name(orig[k as int]),
                    !orig[k as int].skip,
                    props@.len() == derived_props(orig.take(k as int)).len(),
                    !has_duplicate(derived_names(orig.take(k as int))),
                    derived_names(orig.take(k as int)).len() == props@.len(),
                    forall|i: int|
                        0 <= i < props@.len() ==> (#[trigger] props@[i]).name@ == derived_names(
                            orig.take(k as int),
                        )[i],
                    forall|i: int| 0 <= i < j ==> (#[trigger] props@[i]).name@ != field_name@,
                decreases props@.len() - j,
            {
                if props[j].name == field_name {
                    proof {
                        let names = derived_names(orig.take(k as int));
                        assert(names[j as int] == props@[j as int].name@);
                        lemma_derived_take_step(orig, k as int);
                        lemma_duplicate_push(names, field_name@);
                        assert(has_duplicate(derived_names(orig.take(k + 1))));
                        assert(orig =~= orig.take(k + 1) + orig.skip(k + 1));
                        lemma_derived_append(orig.take(k + 1), orig.skip(k + 1));
                        lemma_duplicate_extends(
                            derived_names(orig.take(k + 1)),
                            derived_names(orig.skip(k + 1)),
                        );
                        let names1 = derived_names(orig.take(k + 1));
                        assert(names1 == names.push(field_name@));
                        assert(names1[j as int] == names[j as int]);
                        assert(names1[names.len() as int] == field_name@);
                        assert(derived_names(orig).len() >= names1.len());
                        assert(derived_names(orig)[j as int] == names1[j as int]);
                        assert(derived_names(orig)[names.len() as int]
                            == names1[names.len() as int]);
                        assert(j < names.len());
                        assert(names.len() < derived_names(orig).len());
                        assert(derived_names(orig)[j as int] == field_name@);
                        assert(derived_names(orig)[names.len() as int] == field_name@);
                        assert(has_duplicate(derived_names(orig)));
                    }
                    return Err(DerivationError::DuplicateField(field_name));
                }
                j = j + 1;
            }
            proof {
                let names = derived_names(orig.take(k as int));
                lemma_duplicate_push(names, field_name@);
                assert forall|i: int| 0 <= i < names.len() implies names[i] != field_name@ by {
                    assert(props@[i].name@ == names[i]);
                }
            }
            props.push(DocumentField { name: field_name, mapping: d.mapping });
        }
        k = k + 1;
    }
    proof {
        assert(orig.take(orig.len() as int) =~= orig);
    }
    Ok(
        DocumentMapping {
            name,
            data_type: DocumentKind::Nested,
            dynamic: None,
            enabled: None,
            include_in_all: None,
            properties: props,
        },
    )
}

/// A derived schema has exactly one field per included declaration, in
/// declaration order, under its resolved name: excluded fields contribute
/// nothing and nothing else is added.
pub proof fn lemma_derived_count_and_order(ds: Seq<FieldDecl>)
    ensures
        derived_names(ds).len() == derived_props(ds).len(),
        derived_props(ds).len() == count_included(ds),
        forall|i: int|
            0 <= i < derived_props(ds).len() ==> (#[trigger] derived_props(ds)[i]).0
                == derived_names(ds)[i],
    decreases ds.len(),
{
    if ds.len() > 0 {
        lemma_derived_count_and_order(ds.skip(1));
    }
}

/// How many declared fields are included in the schema.
pub open spec fn count_included(ds: Seq<FieldDecl>) -> int
    decreases ds,
{
    if ds.len() == 0 {
        0
    } else {
        (if included(ds[0]) {
            1int
        } else {
            0int
        }) + count_included(ds.skip(1))
    }
}

/// When no declared field is excluded, the derived schema lists every
/// declaration in order, each under its resolved name with its own mapping.
pub proof fn lemma_derived_order_no_exclusions(ds: Seq<FieldDecl>)
    requires
        forall|i: int| 0 <= i < ds.len() ==> included(#[trigger] ds[i]),
    ensures
        derived_props(ds).len() == ds.len(),
        forall|i: int|
            0 <= i < ds.len() ==> (#[trigger] derived_props(ds)[i]) == (
            resolved_name(ds[i]),
            ds[i].mapping,
            ),
    decreases ds.len(),
{
    if ds.len() > 0 {
        assert(included(ds[0]));
        assert forall|i: int| 0 <= i < ds.skip(1).len() implies included(
            #[trigger] ds.skip(1)[i],
        ) by {
            assert(ds.skip(1)[i] == ds[i + 1]);
        }
        lemma_derived_order_no_exclusions(ds.skip(1));
        assert forall|i: int| 0 <= i < ds.len() implies (#[trigger] derived_props(ds)[i]) == (
        resolved_name(ds[i]),
        ds[i].mapping,
        ) by {
            if i > 0 {
                assert(derived_props(ds)[i] == derived_props(ds.skip(1))[i - 1]);
                assert(ds.skip(1)[i - 1] == ds[i]);
            }
        }
    }
}

/// A nested document field never takes `enabled`, and a schema used as a
/// whole-index root emits neither kind nor settings: only the `properties`
/// that the same schema emits as a field, one level up.
pub proof fn lemma_nested_and_root_shapes(m: DocumentMapping)
    requires
        m.data_type == DocumentKind::Nested,
    ensures
        document_field_text(m) == seq!['{'] + (((((quoted("type"@) + seq![':']) + quoted(
            "nested"@,
        )) + opt_dynamic_text(m.dynamic)) + opt_bool_text("include_in_all"@, m.include_in_all)) + ((
        (seq![','] + quoted("properties"@)) + seq![':']) + properties_text(m.properties@)))
            + seq!['}'],
        document_root_text(m) == seq!['{'] + ((quoted("properties"@) + seq![':'])
            + properties_text(m.properties@)) + seq!['}'],
{
    assert(opt_enabled_text(m) == Seq::<char>::empty());
    lemma_append_empty(
        (((quoted("type"@) + seq![':']) + quoted(document_kind_text(m.data_type)))
            + opt_dynamic_text(m.dynamic)) + opt_bool_text("include_in_all"@, m.include_in_all),
    );
}

impl Document {
    /// A root wrapper around a document schema.
    pub fn new(mapping: DocumentMapping) -> (r: Document)
        ensures
            r.mapping == mapping,
    {
        Document { mapping }
    }

    /// Emits the whole-index root shape: only `properties`, with no outer
    /// kind or settings.
    pub fn to_json(&self) -> (r: Json)
        requires
            self.mapping.wf(),
        ensures
            r.wf(),
            r.spec_text() == document_root_text(self.mapping),
    {
        let mut es: Vec<(String, Json)> = Vec::new();
        push_entry(&mut es, "properties", self.mapping.properties_json());
        Json::Object(es)
    }
}

} // verus!
