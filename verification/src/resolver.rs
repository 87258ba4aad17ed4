//! The annotation resolver: turns the annotations attached to a field into
//! the directive of one generator, or says why they are malformed.
use vstd::prelude::*;
use vstd::string::*;
use crate::error::{Error, ErrorView};
use crate::schema::{AnnotationView, Literal, LiteralView, Location, Meta, MetaView, Nested, NestedView, RawAnnotation};
use crate::text::{option_view, result_view, same_text, views};

verus! {

/// What the builder generator is told about a field.
#[derive(Debug, PartialEq, Eq)]
pub enum BuilderDirective {
    /// Nothing: the field gets its full-value setter only.
    NoDirective,
    /// The field is filled one element at a time through a setter of this name.
    AppendAlias(String),
}

/// The mathematical model of a [`BuilderDirective`].
pub enum BuilderDirectiveView {
    NoDirective,
    AppendAlias(Seq<char>),
}

impl View for BuilderDirective {
    type V = BuilderDirectiveView;

    open spec fn view(&self) -> BuilderDirectiveView {
        match self {
            BuilderDirective::NoDirective => BuilderDirectiveView::NoDirective,
            BuilderDirective::AppendAlias(alias) => BuilderDirectiveView::AppendAlias(alias@),
        }
    }
}

/// What the representation generator is told about a field.
#[derive(Debug, PartialEq, Eq)]
pub enum RepresentationDirective {
    /// Nothing: the field is shown by its default rendering.
    NoDirective,
    /// The field is shown through this format template.
    FormatString(String),
}

/// The mathematical model of a [`RepresentationDirective`].
pub enum RepresentationDirectiveView {
    NoDirective,
    FormatString(Seq<char>),
}

impl View for RepresentationDirective {
    type V = RepresentationDirectiveView;

    open spec fn view(&self) -> RepresentationDirectiveView {
        match self {
            RepresentationDirective::NoDirective => RepresentationDirectiveView::NoDirective,
            RepresentationDirective::FormatString(format) => RepresentationDirectiveView::FormatString(
                format@,
            ),
        }
    }
}

/// The identifier that `syn` reads from a text, where the text is exactly
/// one identifier, and nothing where it is not.
pub uninterp spec fn parsed_identifier(text: Seq<char>) -> Option<Seq<char>>;

/// Parses `text` as one identifier with `syn::parse_str::<syn::Ident>` and
/// gives the identifier's text as `proc_macro2::Ident` displays it. The
/// parse depends on the text alone; the contract names its outcome and
/// claims nothing else of it.
#[verifier::external_body]
fn parse_identifier(text: &str) -> (r: Option<String>)
    ensures
        option_view(r) == parsed_identifier(text@),
{
    match syn::parse_str::<syn::Ident>(text) {
        Ok(ident) => Some(ident.to_string()),
        Err(_) => None,
    }
}

/// The failure that names the grammar of the builder's annotation.
pub open spec fn malformed_builder(location: Location) -> ErrorView {
    ErrorView::MalformedDirective { message: "expected `builder(each = \"...\")`"@, location }
}

/// The failure that names the grammar of the representation's annotation.
pub open spec fn malformed_format(location: Location) -> ErrorView {
    ErrorView::MalformedDirective { message: "expected `debug \"...\"`"@, location }
}

/// Whether the builder generator consults an annotation. It passes over a
/// list under another name and over an empty `builder()`; every other
/// annotation is consulted, and is malformed unless it is
/// `builder(each = "..")`.
pub open spec fn consulted_by_builder(annotation: AnnotationView) -> bool {
    match annotation.meta {
        MetaView::List(entries) => annotation.name == "builder"@ && entries.len() > 0,
        _ => true,
    }
}

/// The position of the first annotation at or after `from` that the builder
/// generator consults.
pub open spec fn first_consulted(annotations: Seq<AnnotationView>, from: int) -> Option<int>
    decreases annotations.len() - from,
{
    if from < 0 || from >= annotations.len() {
        None
    } else if consulted_by_builder(annotations[from]) {
        Some(from)
    } else {
        first_consulted(annotations, from + 1)
    }
}

/// The text given for `each`, if the annotation is `builder(each = "..")`
/// with that single entry.
pub open spec fn each_value(annotation: AnnotationView) -> Option<Seq<char>> {
    match annotation.meta {
        MetaView::List(entries) => if annotation.name == "builder"@ && entries.len() == 1 {
            match entries[0] {
                NestedView::KeyValue(key, LiteralView::Str(value)) => if key == "each"@ {
                    Some(value)
                } else {
                    None
                },
                _ => None,
            }
        } else {
            None
        },
        _ => None,
    }
}

/// The directive for an alias text once it has been parsed: the alias if
/// the text was an identifier, a malformed directive if not.
pub open spec fn alias_of(parsed: Option<Seq<char>>, location: Location) -> Result<
    BuilderDirectiveView,
    ErrorView,
> {
    match parsed {
        Some(alias) => Ok(BuilderDirectiveView::AppendAlias(alias)),
        None => Err(malformed_builder(location)),
    }
}

/// What a consulted annotation means to the builder generator.
pub open spec fn builder_decision(annotation: AnnotationView) -> Result<
    BuilderDirectiveView,
    ErrorView,
> {
    match each_value(annotation) {
        Some(value) => alias_of(parsed_identifier(value), annotation.location),
        None => Err(malformed_builder(annotation.location)),
    }
}

/// The builder's directive for a field with these annotations: that of the
/// first annotation consulted, and none if none is consulted.
pub open spec fn builder_directive(annotations: Seq<AnnotationView>) -> Result<
    BuilderDirectiveView,
    ErrorView,
> {
    match first_consulted(annotations, 0) {
        Some(at) => builder_decision(annotations[at]),
        None => Ok(BuilderDirectiveView::NoDirective),
    }
}

/// What an annotation means to the representation generator: a format
/// template if it is `debug = ".."`, and a malformed directive otherwise.
pub open spec fn format_decision(annotation: AnnotationView) -> Result<
    RepresentationDirectiveView,
    ErrorView,
> {
    match annotation.meta {
        MetaView::KeyValue(LiteralView::Str(format)) => if annotation.name == "debug"@ {
            Ok(RepresentationDirectiveView::FormatString(format))
        } else {
            Err(malformed_format(annotation.location))
        },
        _ => Err(malformed_format(annotation.location)),
    }
}

/// The representation's directive for a field with these annotations: only
/// the first annotation is consulted.
pub open spec fn format_directive(annotations: Seq<AnnotationView>) -> Result<
    RepresentationDirectiveView,
    ErrorView,
> {
    if annotations.len() == 0 {
        Ok(RepresentationDirectiveView::NoDirective)
    } else {
        format_decision(annotations[0])
    }
}

/// The directive for an alias text, given what parsing it as an identifier
/// gave.
pub fn alias_directive(parsed: Option<String>, location: Location) -> (r: Result<
    BuilderDirective,
    Error,
>)
    ensures
        result_view(r) == alias_of(option_view(parsed), location),
{
    match parsed {
        Some(alias) => Ok(BuilderDirective::AppendAlias(alias)),
        None => Err(
            Error::MalformedDirective {
                message: String::from_str("expected `builder(each = \"...\")`"),
                location,
            },
        ),
    }
}

/// The text given for `each` in `builder(each = "..")`.
fn each_text(annotation: &RawAnnotation) -> (r: Option<&String>)
    ensures
        option_view(r) == each_value(annotation@),
{
    match &annotation.meta {
        Meta::List(entries) => {
            if same_text(annotation.name.as_str(), "builder") && entries.len() == 1 {
                match &entries[0] {
                    Nested::KeyValue(key, Literal::Str(value)) => {
                        if same_text(key.as_str(), "each") {
                            Some(value)
                        } else {
                            None
                        }
                    },
                    _ => None,
                }
            } else {
                None
            }
        },
        _ => None,
    }
}

/// Whether the builder generator consults this annotation.
fn is_consulted(annotation: &RawAnnotation) -> (r: bool)
    ensures
        r == consulted_by_builder(annotation@),
{
    match &annotation.meta {
        Meta::List(entries) => same_text(annotation.name.as_str(), "builder") && entries.len() > 0,
        _ => true,
    }
}

/// The position of the annotation that decides the builder's directive.
pub fn consulted_annotation(attrs: &Vec<RawAnnotation>) -> (r: Option<usize>)
    ensures
        match r {
            Some(at) => first_consulted(views(attrs@), 0) == Some(at as int) && at < attrs.len(),
            None => first_consulted(views(attrs@), 0).is_none(),
        },
{
    let mut i: usize = 0;
    while i < attrs.len()
        invariant
            i <= attrs.len(),
            first_consulted(views(attrs@), 0) == first_consulted(views(attrs@), i as int),
        decreases attrs.len() - i,
    {
        if is_consulted(&attrs[i]) {
            return Some(i);
        }
        i += 1;
    }
    None
}

/// What a consulted annotation means to the builder generator: the append
/// alias of `builder(each = "..")`, and a malformed directive otherwise.
pub fn decide(annotation: &RawAnnotation) -> (r: Result<BuilderDirective, Error>)
    ensures
        result_view(r) == builder_decision(annotation@),
{
    match each_text(annotation) {
        Some(value) => alias_directive(parse_identifier(value.as_str()), annotation.location),
        None => Err(
            Error::MalformedDirective {
                message: String::from_str("expected `builder(each = \"...\")`"),
                location: annotation.location,
            },
        ),
    }
}

/// Resolves the annotations of a field for the builder generator: the
/// append alias of `builder(each = "..")`, nothing where no annotation is
/// consulted, and a malformed directive for any other annotation consulted.
pub fn get_one_time_ident(attrs: &Vec<RawAnnotation>) -> (r: Result<BuilderDirective, Error>)
    ensures
        result_view(r) == builder_directive(views(attrs@)),
{
    match consulted_annotation(attrs) {
        Some(at) => decide(&attrs[at]),
        None => Ok(BuilderDirective::NoDirective),
    }
}

/// Resolves the annotations of a field for the representation generator:
/// the format template of a leading `debug = ".."`, nothing where the field
/// has no annotation, and a malformed directive for any other first
/// annotation.
pub fn get_fmt_attr(attrs: &Vec<RawAnnotation>) -> (r: Result<RepresentationDirective, Error>)
    ensures
        result_view(r) == format_directive(views(attrs@)),
{
    if attrs.len() == 0 {
        return Ok(RepresentationDirective::NoDirective);
    }
    let annotation = &attrs[0];
    match &annotation.meta {
        Meta::KeyValue(Literal::Str(format)) => {
            if same_text(annotation.name.as_str(), "debug") {
                return Ok(RepresentationDirective::FormatString(format.clone()));
            }
        },
        _ => {},
    }
    Err(
        Error::MalformedDirective {
            message: String::from_str("expected `debug \"...\"`"),
            location: annotation.location,
        },
    )
}

} // verus!
