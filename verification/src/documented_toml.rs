//! Documentation comments for TOML items: the doc text of a field becomes
//! `# `-prefixed comment lines in front of the item.
use vstd::prelude::*;

use toml_edit::{Decor, RawString};

use crate::text::{lines_of, push_char, push_str, split_lines, trim, trim_seq};

verus! {

/// `toml_edit::Decor`, known to Verus as an opaque type.
#[verifier::external_type_specification]
#[verifier::external_body]
pub struct ExDecor(toml_edit::Decor);

/// `toml_edit::RawString`, known to Verus as an opaque type.
#[verifier::external_type_specification]
#[verifier::external_body]
pub struct ExRawString(toml_edit::RawString);

/// A value wrapped for choosing how it is rendered as a documented TOML item.
pub struct Wrap<T>(pub T);

/// The comment text for one line of documentation: `#` alone for a blank
/// line, else the indent, `# ` and the trimmed line.
pub open spec fn doc_line(line: Seq<char>, indent: Seq<char>) -> Seq<char> {
    let t = trim_seq(line);
    if t.len() == 0 {
        seq!['#', '\n']
    } else {
        indent + seq!['#', ' '] + t + seq!['\n']
    }
}

/// The comment text for all `lines`, in order.
pub open spec fn doc_comment(lines: Seq<Seq<char>>, indent: Seq<char>) -> Seq<char>
    decreases lines.len(),
{
    if lines.len() == 0 {
        Seq::empty()
    } else {
        doc_comment(lines.drop_last(), indent) + doc_line(lines.last(), indent)
    }
}

/// The characters of an optional indent; none is the empty indent.
pub open spec fn indent_chars(indent: Option<&str>) -> Seq<char> {
    match indent {
        Some(s) => s@,
        None => Seq::empty(),
    }
}

/// `prefix` followed by the comment lines for `doc`, each non-blank one
/// indented by `indent`.
pub fn format_doc_text(prefix: &str, doc: &str, indent: Option<&str>) -> (r: String)
    ensures
        r@ == prefix@ + doc_comment(split_lines(doc@), indent_chars(indent)),
{
    let mut formatted = prefix.to_owned();
    let lines = lines_of(doc);
    let ghost all = split_lines(doc@);
    let ghost ind = indent_chars(indent);
    let mut i: usize = 0;
    while i < lines.len()
        invariant
            0 <= i <= lines@.len(),
            lines@.len() == all.len(),
            forall|j: int| 0 <= j < lines@.len() ==> #[trigger] lines@[j]@ == all[j],
            formatted@ == prefix@ + doc_comment(all.take(i as int), ind),
            ind == indent_chars(indent),
        decreases lines.len() - i,
    {
        let ghost before = formatted@;
        let t = trim(lines[i]);
        if t.is_empty() {
            push_char(&mut formatted, '#');
            push_char(&mut formatted, '\n');
        } else {
            match indent {
                Some(ind_str) => push_str(&mut formatted, ind_str),
                None => {},
            }
            push_char(&mut formatted, '#');
            push_char(&mut formatted, ' ');
            push_str(&mut formatted, t);
            push_char(&mut formatted, '\n');
        }
        proof {
            let next = all.take(i + 1);
            assert(next.drop_last() =~= all.take(i as int));
            assert(next.last() == all[i as int]);
            assert(formatted@ =~= before + doc_line(all[i as int], ind));
        }
        i = i + 1;
    }
    proof {
        assert(all.take(lines@.len() as int) =~= all);
    }
    formatted
}

/// The text of a decoration's prefix, where it has one held as text:
/// what `d.prefix().and_then(RawString::as_str)` gives.
pub uninterp spec fn decor_prefix_text(d: Decor) -> Option<Seq<char>>;

/// The text a raw string holds explicitly (`RawString::as_str`).
pub uninterp spec fn raw_text(r: RawString) -> Option<Seq<char>>;

/// The text of `old`'s prefix as an indent; none is the empty indent.
pub open spec fn prefix_indent(old: Decor) -> Seq<char> {
    match decor_prefix_text(old) {
        Some(t) => t,
        None => Seq::empty(),
    }
}

/// The prefix text that formatting `doc` after `prefix` for a decoration
/// like `old` sets.
pub open spec fn formatted_prefix(prefix: Seq<char>, doc: Seq<char>, old: Decor) -> Seq<char> {
    prefix + doc_comment(split_lines(doc), prefix_indent(old))
}

/// An empty decoration (`Decor::default`): it has no prefix.
#[verifier::external_body]
fn decor_default() -> (r: Decor)
    ensures
        decor_prefix_text(r) is None,
{
    Decor::default()
}

/// The prefix of a decoration, if it has one (`Decor::prefix`).
#[verifier::external_body]
fn decor_prefix(d: &Decor) -> (r: Option<&RawString>)
    ensures
        match r {
            Some(raw) => decor_prefix_text(*d) == raw_text(*raw),
            None => decor_prefix_text(*d) is None,
        },
{
    d.prefix()
}

/// The text of a raw string, where it is held explicitly
/// (`RawString::as_str`).
#[verifier::external_body]
fn raw_as_str(raw: &RawString) -> (r: Option<&str>)
    ensures
        match r {
            Some(s) => raw_text(*raw) == Some(s@),
            None => raw_text(*raw) is None,
        },
{
    raw.as_str()
}

/// Replace the prefix of a decoration (`Decor::set_prefix`); a string
/// becomes a raw string that holds it as text (empty or explicit).
#[verifier::external_body]
fn decor_set_prefix(d: &mut Decor, prefix: String)
    ensures
        decor_prefix_text(*final(d)) == Some(prefix@),
{
    d.set_prefix(prefix)
}

/// Set as the prefix of `new` the comment lines for `doc` after `prefix`,
/// each non-blank one indented by the text of `old`'s prefix.
pub fn format_docs_implace(prefix: &str, doc: &str, old: &Decor, new: &mut Decor)
    ensures
        decor_prefix_text(*final(new)) == Some(formatted_prefix(prefix@, doc@, *old)),
{
    let indent = match decor_prefix(old) {
        Some(raw) => raw_as_str(raw),
        None => None,
    };
    assert(indent_chars(indent) == prefix_indent(*old));
    let formatted = format_doc_text(prefix, doc, indent);
    decor_set_prefix(new, formatted);
}

/// A new decoration whose prefix is the comment lines for `doc` after
/// `prefix`, indented as `old`'s prefix.
pub fn format_docs(prefix: &str, doc: &str, old: &Decor) -> (r: Decor)
    ensures
        decor_prefix_text(r) == Some(formatted_prefix(prefix@, doc@, *old)),
{
    let mut new = decor_default();
    format_docs_implace(prefix, doc, old, &mut new);
    new
}

/// How a list is written as a TOML item.
#[derive(Clone, Copy, Debug, PartialEq, Eq, Structural)]
pub enum ListShape {
    /// Nothing is written for an empty list.
    Absent,
    /// An array of tables (`[[name]]`), when the elements are written as
    /// tables.
    ArrayOfTables,
    /// An inline array of values.
    Array,
}

/// The shape of a list of `len` elements whose first element is written as
/// a table or not.
pub fn list_shape(len: usize, first_is_table: bool) -> (r: ListShape)
    ensures
        r == (if len == 0 {
            ListShape::Absent
        } else if first_is_table {
            ListShape::ArrayOfTables
        } else {
            ListShape::Array
        }),
{
    if len == 0 {
        ListShape::Absent
    } else if first_is_table {
        ListShape::ArrayOfTables
    } else {
        ListShape::Array
    }
}

} // verus!
