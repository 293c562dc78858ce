//! The decisions of the `DocumentedToml` derive: the documentation text of
//! a struct or field, the `#[serde(with = "..")]` module of a field, and
//! which code the derive writes for each field.
//!
//! The derive reads the syntax tree; the library sees the attributes as
//! plain values, with expressions known by handles (indices of the
//! literals the derive keeps).
use vstd::prelude::*;

use crate::text::{push_char, push_str, trim, trim_seq};

verus! {

/// The text of the documentation lines among `attrs`, trimmed, in order:
/// `Some(text)` stands for a `#[doc = "text"]` attribute (a `///` line),
/// `None` for any other attribute.
pub open spec fn doc_lines(attrs: Seq<Option<String>>) -> Seq<Seq<char>>
    decreases attrs.len(),
{
    if attrs.len() == 0 {
        Seq::empty()
    } else {
        let rest = doc_lines(attrs.drop_last());
        match attrs.last() {
            Some(t) => rest.push(trim_seq(t@)),
            None => rest,
        }
    }
}

/// `lines` joined by line feeds.
pub open spec fn join_lines(lines: Seq<Seq<char>>) -> Seq<char>
    decreases lines.len(),
{
    if lines.len() == 0 {
        Seq::empty()
    } else if lines.len() == 1 {
        lines[0]
    } else {
        join_lines(lines.drop_last()) + seq!['\n'] + lines.last()
    }
}

/// The documentation of an item with attributes `attrs`: its trimmed doc
/// lines joined by line feeds, or none when it has no doc line.
pub open spec fn spec_doc_comment(attrs: Seq<Option<String>>) -> Option<Seq<char>> {
    if doc_lines(attrs).len() == 0 {
        None
    } else {
        Some(join_lines(doc_lines(attrs)))
    }
}

/// The documentation of an item: each `///` line trimmed, the lines joined
/// by line feeds; `None` when there is none.
pub fn doc_comment(attrs: &Vec<Option<String>>) -> (r: Option<String>)
    ensures
        r is None <==> spec_doc_comment(attrs@) is None,
        r matches Some(s) ==> spec_doc_comment(attrs@) == Some(s@),
{
    let mut out = String::new();
    let mut count: usize = 0;
    let mut i: usize = 0;
    while i < attrs.len()
        invariant
            i <= attrs@.len(),
            count <= i,
            count == doc_lines(attrs@.take(i as int)).len(),
            out@ == join_lines(doc_lines(attrs@.take(i as int))),
        decreases attrs@.len() - i,
    {
        proof {
            assert(attrs@.take(i + 1).drop_last() =~= attrs@.take(i as int));
            assert(attrs@.take(i + 1).last() == attrs@[i as int]);
        }
        let ghost before = doc_lines(attrs@.take(i as int));
        match &attrs[i] {
            Some(t) => {
                let line = trim(t.as_str());
                if count > 0 {
                    push_char(&mut out, '\n');
                }
                push_str(&mut out, line);
                count = count + 1;
                proof {
                    let after = before.push(trim_seq(t@));
                    assert(after.drop_last() =~= before);
                    if before.len() == 0 {
                        assert(out@ =~= after[0]);
                    }
                }
            },
            None => {},
        }
        i = i + 1;
    }
    proof {
        assert(attrs@.take(attrs@.len() as int) =~= attrs@);
    }
    if count == 0 {
        None
    } else {
        Some(out)
    }
}

/// An item of a `#[serde(..)]` attribute.
#[derive(Clone, Copy, Debug, PartialEq, Eq, Structural)]
pub enum SerdeItem {
    /// `with = ..`: the handle of the string literal, or `None` when the
    /// value is not a string literal.
    With(Option<usize>),
    Other,
}

/// An attribute of a field, as far as `#[serde(..)]` goes.
pub enum SerdeAttr {
    /// `#[serde(..)]` with its items, or `None` when they do not parse.
    Serde(Option<Vec<SerdeItem>>),
    Other,
}

/// The view of a serde attribute.
pub open spec fn serde_view(a: SerdeAttr) -> Option<Seq<SerdeItem>> {
    match a {
        SerdeAttr::Serde(Some(items)) => Some(items@),
        _ => None,
    }
}

/// The module of the first `with = "module"` among `items`.
pub open spec fn first_with(items: Seq<SerdeItem>) -> Option<usize>
    decreases items.len(),
{
    if items.len() == 0 {
        None
    } else {
        match items[0] {
            SerdeItem::With(Some(m)) => Some(m),
            _ => first_with(items.drop_first()),
        }
    }
}

/// The module of the first `with = "module"` over the serde attributes
/// `attrs`, in order.
pub open spec fn spec_serde_with(attrs: Seq<Option<Seq<SerdeItem>>>) -> Option<usize>
    decreases attrs.len(),
{
    if attrs.len() == 0 {
        None
    } else {
        match attrs[0] {
            Some(items) => match first_with(items) {
                Some(m) => Some(m),
                None => spec_serde_with(attrs.drop_first()),
            },
            None => spec_serde_with(attrs.drop_first()),
        }
    }
}

proof fn lemma_first_with_step(items: Seq<SerdeItem>, i: int)
    requires
        0 <= i < items.len(),
    ensures
        first_with(items.skip(i)) == match items[i] {
            SerdeItem::With(Some(m)) => Some(m),
            _ => first_with(items.skip(i + 1)),
        },
{
    assert(items.skip(i)[0] == items[i]);
    assert(items.skip(i).drop_first() =~= items.skip(i + 1));
}

fn first_with_exec(items: &Vec<SerdeItem>) -> (r: Option<usize>)
    ensures
        r == first_with(items@),
{
    let mut i: usize = 0;
    assert(items@.skip(0) =~= items@);
    while i < items.len()
        invariant
            i <= items@.len(),
            first_with(items@) == first_with(items@.skip(i as int)),
        decreases items@.len() - i,
    {
        proof {
            lemma_first_with_step(items@, i as int);
        }
        match items[i] {
            SerdeItem::With(Some(m)) => {
                return Some(m);
            },
            _ => {},
        }
        i = i + 1;
    }
    proof {
        assert(items@.skip(i as int) =~= Seq::<SerdeItem>::empty());
    }
    None
}

/// The module named by a field's `#[serde(with = "module")]`: the first
/// such string literal over its serde attributes.
pub fn serde_with_module(attrs: &Vec<SerdeAttr>) -> (r: Option<usize>)
    ensures
        r == spec_serde_with(attrs@.map_values(|a: SerdeAttr| serde_view(a))),
{
    let ghost views = attrs@.map_values(|a: SerdeAttr| serde_view(a));
    let mut i: usize = 0;
    assert(views.skip(0) =~= views);
    while i < attrs.len()
        invariant
            i <= attrs@.len(),
            views == attrs@.map_values(|a: SerdeAttr| serde_view(a)),
            spec_serde_with(views) == spec_serde_with(views.skip(i as int)),
        decreases attrs@.len() - i,
    {
        proof {
            assert(views.skip(i as int)[0] == serde_view(attrs@[i as int]));
            assert(views.skip(i as int).drop_first() =~= views.skip(i + 1));
        }
        match &attrs[i] {
            SerdeAttr::Serde(Some(items)) => {
                match first_with_exec(items) {
                    Some(m) => {
                        return Some(m);
                    },
                    None => {},
                }
            },
            _ => {},
        }
        i = i + 1;
    }
    proof {
        assert(views.skip(i as int) =~= Seq::<Option<Seq<SerdeItem>>>::empty());
    }
    None
}

/// The kind of a field's type, by its last path segment.
#[derive(Clone, Copy, Debug, PartialEq, Eq, Structural)]
pub enum TypeKind {
    Option,
    Vec,
    Other,
}

/// What the derive knows of a field.
#[derive(Clone, Copy, Debug, PartialEq, Eq, Structural)]
pub struct DocFieldSpec {
    pub kind: TypeKind,
    /// The field has documentation.
    pub has_doc: bool,
    /// The module of `#[serde(with = "..")]`, by its handle.
    pub serde_with: Option<usize>,
}

/// Where a field's value comes from in the generated code.
#[derive(Clone, Copy, Debug, PartialEq, Eq, Structural)]
pub enum FieldSource {
    /// Serialized by the `serialize` function of this module.
    SerdeWith { module: usize },
    /// The value inside the `Option`, only when there is one.
    IfSome,
    /// The field itself.
    Direct,
}

/// Which shapes of item the generated code documents: an array of tables
/// (on its first table), a table (on the table), a plain value (on its
/// key).
#[derive(Clone, Copy, Debug, PartialEq, Eq, Structural)]
pub struct DocArms {
    pub array: bool,
    pub table: bool,
    pub value: bool,
}

/// The code the derive writes for a field: the value's source, and the
/// documented shapes, or `None` when the value is inserted without
/// documentation.
#[derive(Clone, Copy, Debug, PartialEq, Eq, Structural)]
pub struct FieldCode {
    pub source: FieldSource,
    pub arms: Option<DocArms>,
}

/// The code for a field.
pub open spec fn spec_field_code(f: DocFieldSpec) -> FieldCode {
    match f.serde_with {
        Some(m) => FieldCode {
            source: FieldSource::SerdeWith { module: m },
            arms: if f.has_doc {
                Some(DocArms { array: false, table: false, value: true })
            } else {
                None
            },
        },
        None => match f.kind {
            TypeKind::Option => FieldCode {
                source: FieldSource::IfSome,
                arms: if f.has_doc {
                    Some(DocArms { array: true, table: true, value: true })
                } else {
                    None
                },
            },
            TypeKind::Vec => FieldCode {
                source: FieldSource::Direct,
                arms: if f.has_doc {
                    Some(DocArms { array: true, table: false, value: true })
                } else {
                    None
                },
            },
            TypeKind::Other => FieldCode {
                source: FieldSource::Direct,
                arms: if f.has_doc {
                    Some(DocArms { array: true, table: true, value: true })
                } else {
                    None
                },
            },
        },
    }
}

/// The code the derive writes for a field: a serde module serializes the
/// value (documented as a plain value); otherwise an `Option` is handled
/// when it holds a value, and a documented field has its doc attached to an
/// array of tables, a table (not for a `Vec`) or a plain value, whichever
/// its conversion gives.
pub fn documented_field_code(field: &DocFieldSpec) -> (r: FieldCode)
    ensures
        r == spec_field_code(*field),
{
    let all = DocArms { array: true, table: true, value: true };
    match field.serde_with {
        Some(m) => FieldCode {
            source: FieldSource::SerdeWith { module: m },
            arms: if field.has_doc {
                Some(DocArms { array: false, table: false, value: true })
            } else {
                None
            },
        },
        None => match field.kind {
            TypeKind::Option => FieldCode {
                source: FieldSource::IfSome,
                arms: if field.has_doc {
                    Some(all)
                } else {
                    None
                },
            },
            TypeKind::Vec => FieldCode {
                source: FieldSource::Direct,
                arms: if field.has_doc {
                    Some(DocArms { array: true, table: false, value: true })
                } else {
                    None
                },
            },
            TypeKind::Other => FieldCode {
                source: FieldSource::Direct,
                arms: if field.has_doc {
                    Some(all)
                } else {
                    None
                },
            },
        },
    }
}

/// A field is documented exactly when it has documentation, whatever its
/// type or serializer: the doc then always goes to a plain value; without a
/// serde module also to an array of tables, and to a table unless the field
/// is a `Vec`. A serde module serializes the field; otherwise an `Option`
/// is written when it holds a value and any other field directly.
pub proof fn law_docs_follow_the_field(f: DocFieldSpec)
    ensures
        (spec_field_code(f).arms is Some) <==> f.has_doc,
        f.has_doc ==> spec_field_code(f).arms.unwrap().value,
        f.has_doc && f.serde_with is None ==> spec_field_code(f).arms.unwrap().array,
        f.has_doc && f.serde_with is None ==> (spec_field_code(f).arms.unwrap().table <==> f.kind
            != TypeKind::Vec),
        f.has_doc && !(f.serde_with is None) ==> !spec_field_code(f).arms.unwrap().array
            && !spec_field_code(f).arms.unwrap().table,
        f.serde_with matches Some(m) ==> spec_field_code(f).source == (FieldSource::SerdeWith {
            module: m,
        }),
        f.serde_with is None ==> spec_field_code(f).source == (if f.kind == TypeKind::Option {
            FieldSource::IfSome
        } else {
            FieldSource::Direct
        }),
{
}

/// A field as the derive reads it.
pub struct DocFieldInput {
    pub kind: TypeKind,
    /// Its attributes, as doc lines (see `doc_lines`).
    pub doc_attrs: Vec<Option<String>>,
    /// Its attributes, as serde attributes.
    pub serde_attrs: Vec<SerdeAttr>,
}

/// What the derive knows of a field it read.
pub open spec fn field_spec_of(f: DocFieldInput) -> DocFieldSpec {
    DocFieldSpec {
        kind: f.kind,
        has_doc: doc_lines(f.doc_attrs@).len() > 0,
        serde_with: spec_serde_with(f.serde_attrs@.map_values(|a: SerdeAttr| serde_view(a))),
    }
}

/// The shape of the type the derive is applied to.
pub enum DocShape {
    /// A struct with named fields, in order.
    Named(Vec<DocFieldInput>),
    /// A struct with unnamed fields, or a unit struct.
    Unnamed,
    /// An enum or a union.
    NotStruct,
}

/// Why the derive is refused.
#[derive(Clone, Copy, Debug, PartialEq, Eq, Structural)]
pub enum DocDeriveError {
    NotNamedFields,
    NotStruct,
}

/// The code for each field of a struct with named fields, in order.
pub fn documented_fields(shape: &DocShape) -> (r: Result<Vec<FieldCode>, DocDeriveError>)
    ensures
        shape is Unnamed ==> r == Err::<Vec<FieldCode>, DocDeriveError>(
            DocDeriveError::NotNamedFields,
        ),
        shape is NotStruct ==> r == Err::<Vec<FieldCode>, DocDeriveError>(DocDeriveError::NotStruct),
        shape matches DocShape::Named(fs) ==> r matches Ok(codes) && codes@.len() == fs@.len() && (
        forall|i: int|
            0 <= i < fs@.len() ==> #[trigger] codes@[i] == spec_field_code(field_spec_of(fs@[i]))),
{
    let fields = match shape {
        DocShape::Named(fs) => fs,
        DocShape::Unnamed => {
            return Err(DocDeriveError::NotNamedFields);
        },
        DocShape::NotStruct => {
            return Err(DocDeriveError::NotStruct);
        },
    };
    let mut codes: Vec<FieldCode> = Vec::new();
    let mut i: usize = 0;
    while i < fields.len()
        invariant
            i <= fields@.len(),
            *shape == DocShape::Named(*fields),
            codes@.len() == i,
            forall|j: int|
                0 <= j < i ==> #[trigger] codes@[j] == spec_field_code(field_spec_of(fields@[j])),
        decreases fields@.len() - i,
    {
        let f = &fields[i];
        let doc = doc_comment(&f.doc_attrs);
        let spec = DocFieldSpec {
            kind: f.kind,
            has_doc: doc.is_some(),
            serde_with: serde_with_module(&f.serde_attrs),
        };
        codes.push(documented_field_code(&spec));
        i = i + 1;
    }
    Ok(codes)
}

} // verus!
