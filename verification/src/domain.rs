use vstd::prelude::*;

use crate::text::{concat, contains, push_str, str_eq, to_owned};

verus! {

pub const XSD_STRING: &'static str = "http://www.w3.org/2001/XMLSchema#string";
pub const XSD_ANY_URI: &'static str = "http://www.w3.org/2001/XMLSchema#anyURI";
pub const XSD_DATE: &'static str = "http://www.w3.org/2001/XMLSchema#date";
pub const XSD_DATETIME: &'static str = "http://www.w3.org/2001/XMLSchema#dateTime";
pub const RDF_LANG_STRING: &'static str = "http://www.w3.org/1999/02/22-rdf-syntax-ns#langString";

/// The datatype names differ from one another.
pub proof fn lemma_datatype_names_distinct()
    ensures
        XSD_STRING@ != XSD_ANY_URI@,
        XSD_STRING@ != RDF_LANG_STRING@,
        XSD_ANY_URI@ != RDF_LANG_STRING@,
        XSD_DATE@ != XSD_DATETIME@,
        XSD_STRING@ != XSD_DATETIME@,
        XSD_ANY_URI@ != XSD_DATETIME@,
        XSD_STRING@ != XSD_DATE@,
        XSD_ANY_URI@ != XSD_DATE@,
        RDF_LANG_STRING@ != XSD_DATETIME@,
        RDF_LANG_STRING@ != XSD_DATE@,
{
    reveal_strlit("http://www.w3.org/2001/XMLSchema#string");
    reveal_strlit("http://www.w3.org/2001/XMLSchema#anyURI");
    reveal_strlit("http://www.w3.org/2001/XMLSchema#date");
    reveal_strlit("http://www.w3.org/2001/XMLSchema#dateTime");
    reveal_strlit("http://www.w3.org/1999/02/22-rdf-syntax-ns#langString");
    assert(XSD_STRING@[33] != XSD_ANY_URI@[33]);
    assert(XSD_STRING@[18] != RDF_LANG_STRING@[18]);
    assert(XSD_ANY_URI@[18] != RDF_LANG_STRING@[18]);
    assert(XSD_DATE@.len() != XSD_DATETIME@.len());
    assert(XSD_STRING@[33] != XSD_DATETIME@[33]);
    assert(XSD_ANY_URI@[33] != XSD_DATETIME@[33]);
    assert(XSD_STRING@[33] != XSD_DATE@[33]);
    assert(XSD_ANY_URI@[33] != XSD_DATE@[33]);
    assert(RDF_LANG_STRING@[18] != XSD_DATETIME@[18]);
    assert(RDF_LANG_STRING@[18] != XSD_DATE@[18]);
}

/// The characters held by an optional string.
pub open spec fn opt_view(o: Option<String>) -> Option<Seq<char>> {
    match o {
        Some(s) => Some(s@),
        None => None,
    }
}

/// The characters held by an optional string slice.
pub open spec fn opt_str_view(o: Option<&str>) -> Option<Seq<char>> {
    match o {
        Some(s) => Some(s@),
        None => None,
    }
}

/// The bytes held by an optional byte vector.
pub open spec fn opt_bytes_view(o: Option<Vec<u8>>) -> Option<Seq<u8>> {
    match o {
        Some(v) => Some(v@),
        None => None,
    }
}

/// A borrowed view of an optional string.
pub fn opt_as_str(o: &Option<String>) -> (r: Option<&str>)
    ensures
        opt_str_view(r) == opt_view(*o),
{
    match o {
        Some(s) => Some(s.as_str()),
        None => None,
    }
}

/// An owned copy of an optional string.
pub fn opt_clone(o: &Option<String>) -> (r: Option<String>)
    ensures
        opt_view(r) == opt_view(*o),
{
    match o {
        Some(s) => Some(s.clone()),
        None => None,
    }
}

/// An owned copy of an optional string slice.
pub fn opt_to_owned(o: Option<&str>) -> (r: Option<String>)
    ensures
        opt_view(r) == opt_str_view(o),
{
    match o {
        Some(s) => Some(to_owned(s)),
        None => None,
    }
}

/// An owned copy of an optional byte vector.
pub fn opt_bytes_clone(o: &Option<Vec<u8>>) -> (r: Option<Vec<u8>>)
    ensures
        opt_bytes_view(r) == opt_bytes_view(*o),
{
    match o {
        Some(v) => Some(v.clone()),
        None => None,
    }
}

/// Whether two optional strings hold the same characters.
pub fn opt_str_eq(a: Option<&str>, b: Option<&str>) -> (r: bool)
    ensures
        r == (opt_str_view(a) == opt_str_view(b)),
{
    match (a, b) {
        (Some(x), Some(y)) => str_eq(x, y),
        (None, None) => true,
        _ => false,
    }
}

/// The mathematical value of a [`RyaType`].
pub struct RyaTypeModel {
    pub data_type: Option<Seq<char>>,
    pub data: Seq<char>,
    pub language: Option<Seq<char>>,
}

/// An RDF value: lexical data with an optional datatype and language tag.
pub struct RyaType {
    data_type: Option<String>,
    data: String,
    language: Option<String>,
}

impl View for RyaType {
    type V = RyaTypeModel;

    closed spec fn view(&self) -> RyaTypeModel {
        RyaTypeModel {
            data_type: opt_view(self.data_type),
            data: self.data@,
            language: opt_view(self.language),
        }
    }
}

impl Clone for RyaType {
    fn clone(&self) -> (r: Self)
        ensures
            r@ == self@,
    {
        RyaType {
            data_type: opt_clone(&self.data_type),
            data: self.data.clone(),
            language: opt_clone(&self.language),
        }
    }
}

impl RyaType {
    /// A plain `xsd:string` literal.
    pub fn new(data: &str) -> (r: Self)
        ensures
            r@ == (RyaTypeModel { data_type: Some(XSD_STRING@), data: data@, language: None }),
    {
        Self::with_data_type(XSD_STRING, data)
    }

    /// A literal of the given datatype.
    pub fn with_data_type(data_type: &str, data: &str) -> (r: Self)
        ensures
            r@ == (RyaTypeModel { data_type: Some(data_type@), data: data@, language: None }),
    {
        Self::with_data_type_and_language(data_type, data, None)
    }

    /// A literal of the given datatype and language tag.
    pub fn with_data_type_and_language(
        data_type: &str,
        data: &str,
        language: Option<String>,
    ) -> (r: Self)
        ensures
            r@ == (RyaTypeModel {
                data_type: Some(data_type@),
                data: data@,
                language: opt_view(language),
            }),
    {
        RyaType { data_type: Some(to_owned(data_type)), data: to_owned(data), language }
    }

    /// A literal of a custom datatype.
    pub fn custom(data_type: &str, data: &str) -> (r: Self)
        ensures
            r@ == (RyaTypeModel { data_type: Some(data_type@), data: data@, language: None }),
    {
        Self::with_data_type(data_type, data)
    }

    pub fn data_type(&self) -> (r: Option<&str>)
        ensures
            opt_str_view(r) == self@.data_type,
    {
        opt_as_str(&self.data_type)
    }

    pub fn data(&self) -> (r: &str)
        ensures
            r@ == self@.data,
    {
        self.data.as_str()
    }

    pub fn language(&self) -> (r: Option<&str>)
        ensures
            opt_str_view(r) == self@.language,
    {
        opt_as_str(&self.language)
    }

    /// A value assembled from its three parts, with no checks.
    pub fn from_parts(data_type: Option<String>, data: String, language: Option<String>) -> (r: Self)
        ensures
            r@ == (RyaTypeModel {
                data_type: opt_view(data_type),
                data: data@,
                language: opt_view(language),
            }),
    {
        RyaType { data_type, data, language }
    }

    /// Java-style equality on (data, datatype) pairs.
    pub fn java_equals_parts(
        data: Option<&str>,
        data_type: Option<&str>,
        other_data: Option<&str>,
        other_data_type: Option<&str>,
    ) -> (r: bool)
        ensures
            r == (opt_str_view(data) == opt_str_view(other_data) && opt_str_view(data_type)
                == opt_str_view(other_data_type)),
    {
        opt_str_eq(data, other_data) && opt_str_eq(data_type, other_data_type)
    }

    /// Whether two values are equal in data, datatype and language.
    pub fn same_as(&self, other: &RyaType) -> (r: bool)
        ensures
            r == (self@ == other@),
    {
        let a = str_eq(self.data.as_str(), other.data.as_str());
        let b = opt_str_eq(opt_as_str(&self.data_type), opt_as_str(&other.data_type));
        let c = opt_str_eq(opt_as_str(&self.language), opt_as_str(&other.language));
        a && b && c
    }
}

impl PartialEq for RyaType {
    fn eq(&self, other: &Self) -> (r: bool) {
        self.same_as(other)
    }
}

impl vstd::std_specs::cmp::PartialEqSpecImpl for RyaType {
    open spec fn obeys_eq_spec() -> bool {
        true
    }

    open spec fn eq_spec(&self, other: &RyaType) -> bool {
        self@ == other@
    }
}

impl Eq for RyaType {
}

/// The error text for an IRI without a `:`.
pub open spec fn no_local_name_message(data: Seq<char>) -> Seq<char> {
    "No local name index in IRI: "@ + data
}

/// Whether `data` is acceptable as an IRI: non-empty and containing a `:`.
pub open spec fn valid_iri_spec(data: Seq<char>) -> bool {
    data.len() > 0 && crate::text::has_char(data, ':')
}

/// Checks that `data` is non-empty and has a `:`; the error says which test failed.
pub fn validate_iri(data: &str) -> (r: Result<(), String>)
    ensures
        r is Ok <==> valid_iri_spec(data@),
        r matches Err(e) ==> (data@.len() == 0 && e@ == "Empty not IRI"@) || (data@.len() > 0
            && e@ == no_local_name_message(data@)),
{
    let chars = crate::text::chars_of(data);
    if chars.len() == 0 {
        return Err(to_owned("Empty not IRI"));
    }
    let colon = crate::text::find_char_from(chars.as_slice(), ':', 0);
    proof {
        crate::text::lemma_first_index_from(data@, ':', 0);
    }
    match colon {
        Some(_) => Ok(()),
        None => Err(concat("No local name index in IRI: ", data)),
    }
}

/// An IRI: a [`RyaType`] of datatype `xsd:anyURI` whose data passed [`validate_iri`].
pub struct RyaIri(RyaType);

impl View for RyaIri {
    type V = RyaTypeModel;

    closed spec fn view(&self) -> RyaTypeModel {
        self.0@
    }
}

impl Clone for RyaIri {
    fn clone(&self) -> (r: Self)
        ensures
            r@ == self@,
    {
        proof {
            use_type_invariant(self);
        }
        RyaIri(self.0.clone())
    }
}

/// The model of the IRI whose text is `data`.
pub open spec fn iri_model(data: Seq<char>) -> RyaTypeModel {
    RyaTypeModel { data_type: Some(XSD_ANY_URI@), data: data, language: None }
}

/// An IRI model is valid when its datatype is `xsd:anyURI`, it has no language and its data is
/// a valid IRI.
pub open spec fn iri_wf(m: RyaTypeModel) -> bool {
    m == iri_model(m.data) && valid_iri_spec(m.data)
}

impl RyaIri {
    #[verifier::type_invariant]
    spec fn inv(self) -> bool {
        iri_wf(self.0@)
    }

    /// Every IRI satisfies [`iri_wf`].
    pub fn check_wf(&self)
        ensures
            iri_wf(self@),
    {
        proof {
            use_type_invariant(self);
        }
    }

    /// Validates `data` and wraps it as an IRI.
    pub fn new(data: &str) -> (r: Result<RyaIri, String>)
        ensures
            r is Ok <==> valid_iri_spec(data@),
            r matches Ok(iri) ==> iri@ == iri_model(data@),
            r matches Err(e) ==> (data@.len() == 0 && e@ == "Empty not IRI"@) || (data@.len() > 0
                && e@ == no_local_name_message(data@)),
    {
        match validate_iri(data) {
            Ok(()) => Ok(RyaIri(RyaType::with_data_type(XSD_ANY_URI, data))),
            Err(e) => Err(e),
        }
    }

    /// The IRI `namespace` followed by `data`.
    pub fn from_namespace(namespace: &str, data: &str) -> (r: Result<RyaIri, String>)
        ensures
            r is Ok <==> valid_iri_spec(namespace@ + data@),
            r matches Ok(iri) ==> iri@ == iri_model(namespace@ + data@),
    {
        let joined = concat(namespace, data);
        Self::new(joined.as_str())
    }

    pub fn data(&self) -> (r: &str)
        ensures
            r@ == self@.data,
    {
        self.0.data()
    }

    pub fn as_type(&self) -> (r: &RyaType)
        ensures
            r@ == self@,
    {
        &self.0
    }

    pub fn into_type(self) -> (r: RyaType)
        ensures
            r@ == self@,
    {
        self.0
    }

    /// The text of the IRI (what `Display` prints).
    pub fn to_string(&self) -> (r: String)
        ensures
            r@ == self@.data,
    {
        to_owned(self.data())
    }

    /// Whether two IRIs are equal.
    pub fn same_as(&self, other: &RyaIri) -> (r: bool)
        ensures
            r == (self@ == other@),
    {
        self.0.same_as(&other.0)
    }
}

impl PartialEq for RyaIri {
    fn eq(&self, other: &Self) -> (r: bool) {
        self.same_as(other)
    }
}

impl vstd::std_specs::cmp::PartialEqSpecImpl for RyaIri {
    open spec fn obeys_eq_spec() -> bool {
        true
    }

    open spec fn eq_spec(&self, other: &RyaIri) -> bool {
        self@ == other@
    }
}

impl Eq for RyaIri {
}

/// The current wall-clock time in milliseconds since the Unix epoch (`SystemTime::now`),
/// or 0 when the clock is before the epoch. Nothing is stated of the value: it depends on the clock.
#[verifier::external_body]
pub fn current_time_millis() -> u64 {
    match std::time::SystemTime::now().duration_since(std::time::UNIX_EPOCH) {
        Ok(d) => d.as_millis() as u64,
        Err(_) => 0,
    }
}

/// The models of the parts of a statement.
pub struct RyaStatementModel {
    pub subject: RyaTypeModel,
    pub predicate: RyaTypeModel,
    pub object: RyaTypeModel,
    pub context: Option<RyaTypeModel>,
    pub qualifier: Option<Seq<char>>,
    pub column_visibility: Option<Seq<u8>>,
    pub value: Option<Seq<u8>>,
    pub timestamp: u64,
}

/// The model of an optional IRI.
pub open spec fn opt_iri_view(o: Option<RyaIri>) -> Option<RyaTypeModel> {
    match o {
        Some(i) => Some(i@),
        None => None,
    }
}

/// An owned copy of an optional IRI.
pub fn opt_iri_clone(o: &Option<RyaIri>) -> (r: Option<RyaIri>)
    ensures
        opt_iri_view(r) == opt_iri_view(*o),
{
    match o {
        Some(i) => Some(i.clone()),
        None => None,
    }
}

/// An RDF statement with its storage attributes.
pub struct RyaStatement {
    pub subject: RyaIri,
    pub predicate: RyaIri,
    pub object: RyaType,
    pub context: Option<RyaIri>,
    pub qualifier: Option<String>,
    pub column_visibility: Option<Vec<u8>>,
    pub value: Option<Vec<u8>>,
    pub timestamp: u64,
}

impl View for RyaStatement {
    type V = RyaStatementModel;

    open spec fn view(&self) -> RyaStatementModel {
        RyaStatementModel {
            subject: self.subject@,
            predicate: self.predicate@,
            object: self.object@,
            context: opt_iri_view(self.context),
            qualifier: opt_view(self.qualifier),
            column_visibility: opt_bytes_view(self.column_visibility),
            value: opt_bytes_view(self.value),
            timestamp: self.timestamp,
        }
    }
}

impl Clone for RyaStatement {
    fn clone(&self) -> (r: Self)
        ensures
            r@ == self@,
    {
        RyaStatement {
            subject: self.subject.clone(),
            predicate: self.predicate.clone(),
            object: self.object.clone(),
            context: opt_iri_clone(&self.context),
            qualifier: opt_clone(&self.qualifier),
            column_visibility: opt_bytes_clone(&self.column_visibility),
            value: opt_bytes_clone(&self.value),
            timestamp: self.timestamp,
        }
    }
}

impl RyaStatement {
    /// A statement of the three terms, stamped with the current time and no other attributes.
    pub fn new(subject: RyaIri, predicate: RyaIri, object: RyaType) -> (r: Self)
        ensures
            r.subject@ == subject@,
            r.predicate@ == predicate@,
            r.object@ == object@,
            r.context is None,
            r.qualifier is None,
            r.column_visibility is None,
            r.value is None,
    {
        RyaStatement {
            subject,
            predicate,
            object,
            context: None,
            qualifier: None,
            column_visibility: None,
            value: None,
            timestamp: current_time_millis(),
        }
    }

    /// The same statement with the given timestamp.
    pub fn with_timestamp(self, timestamp: u64) -> (r: Self)
        ensures
            r@ == (RyaStatementModel { timestamp, ..self@ }),
    {
        let mut s = self;
        s.timestamp = timestamp;
        s
    }

    /// Whether two statements agree in every part.
    pub fn same_as(&self, other: &RyaStatement) -> (r: bool)
        ensures
            r == (self@ == other@),
    {
        let a = self.subject.same_as(&other.subject) && self.predicate.same_as(&other.predicate)
            && self.object.same_as(&other.object);
        let b = match (&self.context, &other.context) {
            (Some(x), Some(y)) => x.same_as(y),
            (None, None) => true,
            _ => false,
        };
        let c = opt_str_eq(opt_as_str(&self.qualifier), opt_as_str(&other.qualifier));
        let d = opt_bytes_eq(&self.column_visibility, &other.column_visibility);
        let e = opt_bytes_eq(&self.value, &other.value);
        a && b && c && d && e && self.timestamp == other.timestamp
    }
}

impl PartialEq for RyaStatement {
    fn eq(&self, other: &Self) -> (r: bool) {
        self.same_as(other)
    }
}

impl vstd::std_specs::cmp::PartialEqSpecImpl for RyaStatement {
    open spec fn obeys_eq_spec() -> bool {
        true
    }

    open spec fn eq_spec(&self, other: &RyaStatement) -> bool {
        self@ == other@
    }
}

impl Eq for RyaStatement {
}

/// Whether two byte slices are equal.
pub fn bytes_eq(a: &[u8], b: &[u8]) -> (r: bool)
    ensures
        r == (a@ == b@),
{
    if a.len() != b.len() {
        return false;
    }
    let mut i: usize = 0;
    while i < a.len()
        invariant
            a.len() == b.len(),
            i <= a.len(),
            forall|k: int| 0 <= k < i ==> a@[k] == b@[k],
        decreases a.len() - i,
    {
        if a[i] != b[i] {
            return false;
        }
        i = i + 1;
    }
    assert(a@ =~= b@);
    true
}

/// Whether two optional byte vectors are equal.
pub fn opt_bytes_eq(a: &Option<Vec<u8>>, b: &Option<Vec<u8>>) -> (r: bool)
    ensures
        r == (opt_bytes_view(*a) == opt_bytes_view(*b)),
{
    match (a, b) {
        (Some(x), Some(y)) => bytes_eq(x.as_slice(), y.as_slice()),
        (None, None) => true,
        _ => false,
    }
}

} // verus!
