//! Bundle manifests: the identity of a bundle, read from the attributes of the
//! `ExtensionManifest` element of its XML manifest document.
use vstd::prelude::*;
use vstd::utf8::{decode_utf8, decode_utf8_encode_utf8, encode_utf8, valid_utf8};
use vstd::string::StringSliceAdditionalSpecFns;
use quick_xml::events::Event;
use quick_xml::reader::Reader;
use crate::plugin::PluginError;

verus! {

/// One attribute of an element, as raw bytes.
#[derive(Clone, Debug)]
pub struct XmlAttribute {
    pub key: Vec<u8>,
    pub value: Vec<u8>,
}

/// One event of an XML document, reduced to what manifest reading looks at.
#[derive(Clone, Debug)]
pub enum XmlStep {
    /// An opening or self-closing element with its attributes in document order;
    /// `None` stands for an attribute that could not be read.
    Element { name: Vec<u8>, attributes: Vec<Option<XmlAttribute>> },
    /// Any other markup or text.
    Other,
    /// Markup that is not well-formed; nothing after it is read.
    Malformed,
}

pub type AttributeView = Option<(Seq<u8>, Seq<u8>)>;

pub enum XmlStepView {
    Element { name: Seq<u8>, attributes: Seq<AttributeView> },
    Other,
    Malformed,
}

pub open spec fn attribute_view(a: Option<XmlAttribute>) -> AttributeView {
    match a {
        Some(x) => Some((x.key@, x.value@)),
        None => None,
    }
}

impl View for XmlStep {
    type V = XmlStepView;

    open spec fn view(&self) -> XmlStepView {
        match self {
            XmlStep::Element { name, attributes } => XmlStepView::Element {
                name: name@,
                attributes: attributes@.map_values(|a: Option<XmlAttribute>| attribute_view(a)),
            },
            XmlStep::Other => XmlStepView::Other,
            XmlStep::Malformed => XmlStepView::Malformed,
        }
    }
}

pub open spec fn steps_view(steps: Seq<XmlStep>) -> Seq<XmlStepView> {
    steps.map_values(|s: XmlStep| s@)
}

/// The events that quick-xml's reader yields on a document, in order, up to the
/// end of the document or up to and including the first malformed markup.
pub uninterp spec fn xml_steps(doc: Seq<u8>) -> Seq<XmlStepView>;

/// The text that a lossy UTF-8 decoding makes of some bytes.
pub uninterp spec fn utf8_lossy(bytes: Seq<u8>) -> Seq<char>;

/// Relies on quick-xml's `Reader::read_event` over a byte slice: the events of
/// the document depend on its bytes alone.
#[verifier::external_body]
fn read_xml_steps(doc: &[u8]) -> (r: Vec<XmlStep>)
    ensures
        steps_view(r@) == xml_steps(doc@),
{
    let mut reader = Reader::from_reader(doc);
    let mut steps = Vec::new();
    loop {
        steps.push(match reader.read_event() {
            Ok(Event::Start(e)) | Ok(Event::Empty(e)) => XmlStep::Element {
                name: e.name().as_ref().to_vec(),
                attributes: e.attributes().map(|a| a.ok().map(|a| XmlAttribute { key: a.key.as_ref().to_vec(), value: a.value.to_vec() })).collect(),
            },
            Ok(Event::Eof) => return steps,
            Ok(_) => XmlStep::Other,
            Err(_) => break,
        });
    }
    steps.push(XmlStep::Malformed);
    steps
}

/// Relies on `String::from_utf8_lossy`: invalid sequences become U+FFFD, valid
/// text is kept as it is, and only empty input gives empty output.
#[verifier::external_body]
fn decode_lossy(bytes: &[u8]) -> (r: String)
    ensures
        r@ == utf8_lossy(bytes@),
        (bytes@.len() == 0) == (r@.len() == 0),
        valid_utf8(bytes@) ==> r@ == decode_utf8(bytes@),
{
    String::from_utf8_lossy(bytes).into_owned()
}

/// The identity of a bundle.
#[derive(Clone, Debug)]
pub struct PluginInfo {
    pub bundle_id: String,
    pub name: String,
    pub version: String,
}

pub struct PluginInfoView {
    pub bundle_id: Seq<char>,
    pub name: Seq<char>,
    pub version: Seq<char>,
}

impl View for PluginInfo {
    type V = PluginInfoView;

    open spec fn view(&self) -> PluginInfoView {
        PluginInfoView { bundle_id: self.bundle_id@, name: self.name@, version: self.version@ }
    }
}

pub open spec fn info_result_view(r: Result<PluginInfo, PluginError>) -> Result<PluginInfoView, PluginError> {
    match r {
        Ok(info) => Ok(info@),
        Err(e) => Err(e),
    }
}

pub open spec fn manifest_tag() -> Seq<u8> {
    "ExtensionManifest".spec_bytes()
}

pub open spec fn id_key() -> Seq<u8> {
    "ExtensionBundleId".spec_bytes()
}

pub open spec fn name_key() -> Seq<u8> {
    "ExtensionBundleName".spec_bytes()
}

pub open spec fn version_key() -> Seq<u8> {
    "ExtensionBundleVersion".spec_bytes()
}

/// The three attribute names are distinct.
pub proof fn lemma_keys_distinct()
    ensures
        id_key() != name_key(),
        id_key() != version_key(),
        name_key() != version_key(),
{
    reveal_strlit("ExtensionBundleId");
    reveal_strlit("ExtensionBundleName");
    reveal_strlit("ExtensionBundleVersion");
    vstd::utf8::encode_utf8_decode_utf8("ExtensionBundleId"@);
    vstd::utf8::encode_utf8_decode_utf8("ExtensionBundleName"@);
    vstd::utf8::encode_utf8_decode_utf8("ExtensionBundleVersion"@);
    assert("ExtensionBundleId"@.len() != "ExtensionBundleName"@.len());
    assert("ExtensionBundleId"@.len() != "ExtensionBundleVersion"@.len());
    assert("ExtensionBundleName"@.len() != "ExtensionBundleVersion"@.len());
}

/// The value of the last attribute named `key`.
pub open spec fn attr_value(attrs: Seq<AttributeView>, key: Seq<u8>) -> Option<Seq<u8>>
    decreases attrs.len(),
{
    if attrs.len() == 0 {
        None
    } else {
        match attrs.last() {
            Some((k, v)) if k == key => Some(v),
            _ => attr_value(attrs.drop_last(), key),
        }
    }
}

/// The text of attribute bytes: valid UTF-8 as it decodes, anything else through
/// the lossy decoding.
pub open spec fn decoded(v: Seq<u8>) -> Seq<char> {
    if valid_utf8(v) {
        decode_utf8(v)
    } else {
        utf8_lossy(v)
    }
}

/// The decoded text of an attribute, empty where it is absent.
pub open spec fn attr_text(attrs: Seq<AttributeView>, key: Seq<u8>) -> Seq<char> {
    match attr_value(attrs, key) {
        Some(v) => decoded(v),
        None => Seq::empty(),
    }
}

/// The attribute is absent or has an empty value.
pub open spec fn absent_or_empty(attrs: Seq<AttributeView>, key: Seq<u8>) -> bool {
    match attr_value(attrs, key) {
        Some(v) => v.len() == 0,
        None => true,
    }
}

/// The attribute has a non-empty value that is valid UTF-8.
pub open spec fn present_as_text(attrs: Seq<AttributeView>, key: Seq<u8>) -> bool {
    match attr_value(attrs, key) {
        Some(v) => v.len() > 0 && valid_utf8(v),
        None => false,
    }
}

/// Absent or empty attributes read as empty text; non-empty valid UTF-8 reads as
/// the non-empty text it encodes, byte for byte.
pub proof fn lemma_attr_text(attrs: Seq<AttributeView>, key: Seq<u8>)
    ensures
        absent_or_empty(attrs, key) ==> attr_text(attrs, key).len() == 0,
        present_as_text(attrs, key) ==> attr_text(attrs, key).len() > 0 && encode_utf8(
            attr_text(attrs, key),
        ) == attr_value(attrs, key).unwrap() && attr_text(attrs, key) == decode_utf8(
            attr_value(attrs, key).unwrap(),
        ),
{
    if let Some(v) = attr_value(attrs, key) {
        if v.len() == 0 {
            assert(valid_utf8(v));
            assert(decode_utf8(v) =~= Seq::<char>::empty());
        } else if valid_utf8(v) {
            decode_utf8_encode_utf8(v);
        }
    }
}

pub open spec fn attrs_readable(attrs: Seq<AttributeView>) -> bool {
    forall|i: int| 0 <= i < attrs.len() ==> (#[trigger] attrs[i]) is Some
}

/// The identity carried by the attributes of a manifest element with a
/// non-empty identifier: a missing name falls back to the identifier, a missing
/// version to "Unknown".
pub open spec fn info_of(attrs: Seq<AttributeView>) -> PluginInfoView {
    let id = attr_text(attrs, id_key());
    let name = attr_text(attrs, name_key());
    let version = attr_text(attrs, version_key());
    PluginInfoView {
        bundle_id: id,
        name: if name.len() == 0 { id } else { name },
        version: if version.len() == 0 { "Unknown"@ } else { version },
    }
}

/// What reading a manifest yields from step `i` on: the first manifest element
/// with a non-empty identifier decides, malformed markup before it is an error,
/// and a document without one is invalid.
pub open spec fn manifest_from(steps: Seq<XmlStepView>, i: int) -> Result<PluginInfoView, PluginError>
    decreases steps.len() - i,
{
    if i < 0 || i >= steps.len() {
        Err(PluginError::InvalidManifest)
    } else {
        match steps[i] {
            XmlStepView::Malformed => Err(PluginError::InvalidManifest),
            XmlStepView::Element { name, attributes } => if name != manifest_tag() {
                manifest_from(steps, i + 1)
            } else if !attrs_readable(attributes) {
                Err(PluginError::InvalidManifest)
            } else if attr_text(attributes, id_key()).len() == 0 {
                manifest_from(steps, i + 1)
            } else {
                Ok(info_of(attributes))
            },
            XmlStepView::Other => manifest_from(steps, i + 1),
        }
    }
}

pub open spec fn manifest_of(steps: Seq<XmlStepView>) -> Result<PluginInfoView, PluginError> {
    manifest_from(steps, 0)
}

/// A step that reading passes over without deciding.
pub open spec fn passed_over(s: XmlStepView) -> bool {
    match s {
        XmlStepView::Other => true,
        XmlStepView::Element { name, attributes } => name != manifest_tag() || (attrs_readable(
            attributes,
        ) && absent_or_empty(attributes, id_key())),
        XmlStepView::Malformed => false,
    }
}

/// The step is no manifest element with a non-empty identifier.
pub open spec fn lacks_identifier(s: XmlStepView) -> bool {
    match s {
        XmlStepView::Element { name, attributes } => name == manifest_tag() ==> absent_or_empty(
            attributes,
            id_key(),
        ),
        _ => true,
    }
}

/// The step is no manifest element with a version attribute.
pub open spec fn lacks_version(s: XmlStepView) -> bool {
    match s {
        XmlStepView::Element { name, attributes } => name == manifest_tag() ==> attr_value(
            attributes,
            version_key(),
        ) is None,
        _ => true,
    }
}

proof fn lemma_skip_passed(steps: Seq<XmlStepView>, j: int, i: int)
    requires
        0 <= j <= i,
        forall|k: int| j <= k < i ==> passed_over(#[trigger] steps[k]),
    ensures
        manifest_from(steps, j) == manifest_from(steps, i),
    decreases i - j,
{
    if j < i {
        assert(passed_over(steps[j]));
        if let XmlStepView::Element { attributes, .. } = steps[j] {
            lemma_attr_text(attributes, id_key());
        }
        lemma_skip_passed(steps, j + 1, i);
    }
}

/// A manifest document whose first deciding element is a manifest element with a
/// non-empty identifier written as UTF-8 reads successfully, and the identity
/// returned carries that identifier unchanged, byte for byte.
pub proof fn lemma_identifier_is_returned(steps: Seq<XmlStepView>, i: int)
    requires
        0 <= i < steps.len(),
        forall|k: int| 0 <= k < i ==> passed_over(#[trigger] steps[k]),
        steps[i] matches XmlStepView::Element { name, attributes } && (name == manifest_tag()
            && attrs_readable(attributes) && present_as_text(attributes, id_key())),
    ensures
        steps[i] matches XmlStepView::Element { attributes, .. } && manifest_of(steps) == Ok::<
            PluginInfoView,
            PluginError,
        >(info_of(attributes)),
        manifest_of(steps) matches Ok(info) && steps[i] matches XmlStepView::Element {
            attributes,
            ..
        } && encode_utf8(info.bundle_id) == attr_value(attributes, id_key()).unwrap(),
{
    if let XmlStepView::Element { attributes, .. } = steps[i] {
        lemma_attr_text(attributes, id_key());
    }
    lemma_skip_passed(steps, 0, i);
}

/// The identity of a manifest element comes back as written: the identifier as
/// it decodes, the name where it is given and else the identifier, the version
/// where it is given and else "Unknown".
pub proof fn lemma_identity_as_written(attrs: Seq<AttributeView>)
    requires
        present_as_text(attrs, id_key()),
    ensures
        encode_utf8(info_of(attrs).bundle_id) == attr_value(attrs, id_key()).unwrap(),
        present_as_text(attrs, name_key()) ==> encode_utf8(info_of(attrs).name) == attr_value(
            attrs,
            name_key(),
        ).unwrap(),
        absent_or_empty(attrs, name_key()) ==> info_of(attrs).name == info_of(attrs).bundle_id,
        present_as_text(attrs, version_key()) ==> encode_utf8(info_of(attrs).version) == attr_value(
            attrs,
            version_key(),
        ).unwrap(),
        absent_or_empty(attrs, version_key()) ==> info_of(attrs).version == "Unknown"@,
        info_of(attrs).bundle_id.len() > 0,
{
    lemma_attr_text(attrs, id_key());
    lemma_attr_text(attrs, name_key());
    lemma_attr_text(attrs, version_key());
}

/// Whenever reading succeeds, the identifier is non-empty.
pub proof fn lemma_success_has_identifier(steps: Seq<XmlStepView>)
    ensures
        manifest_of(steps) matches Ok(info) ==> info.bundle_id.len() > 0,
{
    lemma_success_has_identifier_from(steps, 0);
}

proof fn lemma_success_has_identifier_from(steps: Seq<XmlStepView>, i: int)
    ensures
        manifest_from(steps, i) matches Ok(info) ==> info.bundle_id.len() > 0,
    decreases steps.len() - i,
{
    if 0 <= i < steps.len() {
        lemma_success_has_identifier_from(steps, i + 1);
    }
}

/// A document in which no manifest element carries a non-empty identifier is
/// rejected as an invalid manifest.
pub proof fn lemma_missing_identifier_is_invalid(steps: Seq<XmlStepView>)
    requires
        forall|k: int|
            0 <= k < steps.len() ==> lacks_identifier(#[trigger] steps[k]),
    ensures
        manifest_of(steps) == Err::<PluginInfoView, PluginError>(PluginError::InvalidManifest),
{
    lemma_missing_identifier_from(steps, 0);
}

proof fn lemma_missing_identifier_from(steps: Seq<XmlStepView>, i: int)
    requires
        forall|k: int|
            0 <= k < steps.len() ==> lacks_identifier(#[trigger] steps[k]),
    ensures
        manifest_from(steps, i) == Err::<PluginInfoView, PluginError>(PluginError::InvalidManifest),
    decreases steps.len() - i,
{
    if 0 <= i < steps.len() {
        lemma_missing_identifier_from(steps, i + 1);
        assert(lacks_identifier(steps[i]));
        if let XmlStepView::Element { attributes, .. } = steps[i] {
            lemma_attr_text(attributes, id_key());
        }
    }
}

/// A document whose manifest elements carry no version attribute reads, when it
/// reads at all, with the version "Unknown".
pub proof fn lemma_missing_version_is_unknown(steps: Seq<XmlStepView>)
    requires
        forall|k: int|
            0 <= k < steps.len() ==> lacks_version(#[trigger] steps[k]),
    ensures
        manifest_of(steps) matches Ok(info) ==> info.version == "Unknown"@,
{
    lemma_missing_version_from(steps, 0);
}

proof fn lemma_missing_version_from(steps: Seq<XmlStepView>, i: int)
    requires
        forall|k: int|
            0 <= k < steps.len() ==> lacks_version(#[trigger] steps[k]),
    ensures
        manifest_from(steps, i) matches Ok(info) ==> info.version == "Unknown"@,
    decreases steps.len() - i,
{
    if 0 <= i < steps.len() {
        lemma_missing_version_from(steps, i + 1);
        assert(lacks_version(steps[i]));
    }
}

fn bytes_equal(a: &[u8], b: &[u8]) -> (r: bool)
    ensures
        r == (a@ == b@),
{
    if a.len() != b.len() {
        return false;
    }
    let mut i: usize = 0;
    while i < a.len()
        invariant
            a@.len() == b@.len(),
            i <= a@.len(),
            forall|j: int| 0 <= j < i ==> a@[j] == b@[j],
        decreases a.len() - i,
    {
        if a[i] != b[i] {
            return false;
        }
        i = i + 1;
    }
    assert(a@ =~= b@);
    true
}

fn all_readable(attrs: &Vec<Option<XmlAttribute>>) -> (r: bool)
    ensures
        r == attrs_readable(attrs@.map_values(|a: Option<XmlAttribute>| attribute_view(a))),
{
    let ghost v = attrs@.map_values(|a: Option<XmlAttribute>| attribute_view(a));
    let mut i: usize = 0;
    while i < attrs.len()
        invariant
            i <= attrs@.len(),
            v == attrs@.map_values(|a: Option<XmlAttribute>| attribute_view(a)),
            forall|j: int| 0 <= j < i ==> (#[trigger] v[j]) is Some,
        decreases attrs.len() - i,
    {
        if attrs[i].is_none() {
            assert(v[i as int] is None);
            return false;
        }
        i = i + 1;
    }
    true
}

/// The decoded value of the last attribute named `key`, empty where there is none.
fn attribute_text(attrs: &Vec<Option<XmlAttribute>>, key: &[u8]) -> (r: String)
    ensures
        r@ == attr_text(attrs@.map_values(|a: Option<XmlAttribute>| attribute_view(a)), key@),
{
    let ghost v = attrs@.map_values(|a: Option<XmlAttribute>| attribute_view(a));
    let mut found: Option<usize> = None;
    let mut i: usize = 0;
    while i < attrs.len()
        invariant
            i <= attrs@.len(),
            v == attrs@.map_values(|a: Option<XmlAttribute>| attribute_view(a)),
            match found {
                Some(j) => j < i && (attrs@[j as int] matches Some(x) && attr_value(v.subrange(0, i as int), key@) == Some(x.value@)),
                None => attr_value(v.subrange(0, i as int), key@) is None,
            },
        decreases attrs.len() - i,
    {
        assert(v.subrange(0, i + 1).drop_last() =~= v.subrange(0, i as int));
        match &attrs[i] {
            Some(a) => {
                if bytes_equal(a.key.as_slice(), key) {
                    found = Some(i);
                }
            },
            None => {},
        }
        i = i + 1;
    }
    assert(v.subrange(0, i as int) =~= v);
    match found {
        Some(j) => match &attrs[j] {
            Some(a) => decode_lossy(a.value.as_slice()),
            None => String::new(),
        },
        None => String::new(),
    }
}

/// Reads a bundle's identity from the events of its manifest document.
pub fn parse_manifest_steps(steps: &Vec<XmlStep>) -> (r: Result<PluginInfo, PluginError>)
    ensures
        info_result_view(r) == manifest_of(steps_view(steps@)),
{
    let ghost sv = steps_view(steps@);
    let mut i: usize = 0;
    while i < steps.len()
        invariant
            i <= steps@.len(),
            sv == steps_view(steps@),
            manifest_of(sv) == manifest_from(sv, i as int),
        decreases steps.len() - i,
    {
        match &steps[i] {
            XmlStep::Malformed => {
                return Err(PluginError::InvalidManifest);
            },
            XmlStep::Element { name, attributes } => {
                if bytes_equal(name.as_slice(), "ExtensionManifest".as_bytes()) {
                    if !all_readable(attributes) {
                        return Err(PluginError::InvalidManifest);
                    }
                    let id = attribute_text(attributes, "ExtensionBundleId".as_bytes());
                    if id.unicode_len() > 0 {
                        let name = attribute_text(attributes, "ExtensionBundleName".as_bytes());
                        let version = attribute_text(attributes, "ExtensionBundleVersion".as_bytes());
                        let name = if name.unicode_len() == 0 { id.clone() } else { name };
                        let version = if version.unicode_len() == 0 {
                            String::from_str("Unknown")
                        } else {
                            version
                        };
                        return Ok(PluginInfo { bundle_id: id, name, version });
                    }
                }
            },
            XmlStep::Other => {},
        }
        i = i + 1;
    }
    Err(PluginError::InvalidManifest)
}

/// Reads a bundle's identity from the bytes of its manifest document.
pub fn parse_manifest_xml(xml_content: &[u8]) -> (r: Result<PluginInfo, PluginError>)
    ensures
        info_result_view(r) == manifest_of(xml_steps(xml_content@)),
{
    let steps = read_xml_steps(xml_content);
    parse_manifest_steps(&steps)
}

/// Reads a bundle's identity from its manifest document, `None` standing for a
/// document that could not be read.
pub fn parse_manifest_document(content: Option<&[u8]>) -> (r: Result<PluginInfo, PluginError>)
    ensures
        content is None ==> r == Err::<PluginInfo, PluginError>(PluginError::ManifestNotFound),
        content matches Some(c) ==> info_result_view(r) == manifest_of(xml_steps(c@)),
{
    match content {
        Some(c) => parse_manifest_xml(c),
        None => Err(PluginError::ManifestNotFound),
    }
}

} // verus!
