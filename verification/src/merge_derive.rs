//! The decisions of the `ClapMerge` derive: what each `#[arg(..)]`,
//! `#[command(..)]` and `#[subcommand]` attribute of a field means for the
//! generated `Default` and `merge`.
//!
//! The derive reads the syntax tree; the library sees the attributes as
//! plain values. Expressions are known by handles, indices of the
//! expressions the derive keeps, and fields by their position.
use vstd::prelude::*;

verus! {

/// The key of a `key = value` item of `#[arg(..)]`.
#[derive(Clone, Copy, Debug, PartialEq, Eq, Structural)]
pub enum ArgKey {
    Id,
    ValueParser,
    DefaultValueT,
    DefaultValue,
    DefaultMissingValue,
    /// Any other key, or a left side that is not a single name.
    Other,
}

/// The right side of a `key = value` item: a string literal or another
/// expression, by its handle.
#[derive(Clone, Copy, Debug, PartialEq, Eq, Structural)]
pub enum ArgValue {
    StrLit { expr: usize },
    Other { expr: usize },
}

/// An item of `#[arg(..)]`.
#[derive(Clone, Copy, Debug, PartialEq, Eq, Structural)]
pub enum ArgItem {
    /// `key = value`.
    Assign { key: ArgKey, value: ArgValue },
    /// The bare name `skip`.
    Skip,
    /// Anything else.
    Other,
}

/// How a field's default value is written.
#[derive(Clone, Copy, Debug, PartialEq, Eq, Structural)]
pub enum DefaultExpr {
    /// The expression itself (`default_value_t`).
    Value { expr: usize },
    /// The expression converted with `.into()` (`default_value` without a
    /// value parser).
    Into { expr: usize },
    /// The value parser applied to the expression, unwrapped.
    Parsed { parser: usize, value: usize },
}

/// What `#[arg(..)]` says of a field.
#[derive(Clone, Copy, Debug, PartialEq, Eq, Structural)]
pub struct ArgAttr {
    /// The argument id given by `id = "..."`, as the literal's handle.
    pub id: Option<usize>,
    /// `skip` was given.
    pub skip: bool,
    /// The default value, from the last default item.
    pub default: Option<DefaultExpr>,
}

/// Why an `#[arg(..)]` attribute is refused.
#[derive(Clone, Copy, Debug, PartialEq, Eq, Structural)]
pub enum ArgAttrError {
    /// `id = ...` with something other than a string literal.
    IdNotStringLiteral { expr: usize },
}

/// The state of reading the items of `#[arg(..)]` in order.
#[derive(Clone, Copy, Debug, PartialEq, Eq, Structural)]
pub struct ArgState {
    pub id: Option<usize>,
    pub skip: bool,
    pub parser: Option<usize>,
    pub default: Option<DefaultExpr>,
}

/// The handle of a right side.
pub open spec fn value_expr(v: ArgValue) -> usize {
    match v {
        ArgValue::StrLit { expr } => expr,
        ArgValue::Other { expr } => expr,
    }
}

/// The state before any item.
pub open spec fn arg_start() -> ArgState {
    ArgState { id: None, skip: false, parser: None, default: None }
}

/// Reading one item.
pub open spec fn arg_step(st: ArgState, item: ArgItem) -> Result<ArgState, ArgAttrError> {
    match item {
        ArgItem::Assign { key, value } => match key {
            ArgKey::Id => match value {
                ArgValue::StrLit { expr } => Ok(ArgState { id: Some(expr), ..st }),
                ArgValue::Other { expr } => Err(ArgAttrError::IdNotStringLiteral { expr }),
            },
            ArgKey::ValueParser => Ok(ArgState { parser: Some(value_expr(value)), ..st }),
            ArgKey::DefaultValueT => Ok(
                ArgState { default: Some(DefaultExpr::Value { expr: value_expr(value) }), ..st },
            ),
            ArgKey::DefaultValue | ArgKey::DefaultMissingValue => Ok(
                ArgState {
                    default: Some(
                        match st.parser {
                            Some(p) => DefaultExpr::Parsed { parser: p, value: value_expr(value) },
                            None => DefaultExpr::Into { expr: value_expr(value) },
                        },
                    ),
                    ..st
                },
            ),
            ArgKey::Other => Ok(st),
        },
        ArgItem::Skip => Ok(ArgState { skip: true, ..st }),
        ArgItem::Other => Ok(st),
    }
}

/// Reading `items` in order; the first refused item ends the reading.
pub open spec fn arg_fold(items: Seq<ArgItem>) -> Result<ArgState, ArgAttrError>
    decreases items.len(),
{
    if items.len() == 0 {
        Ok(arg_start())
    } else {
        match arg_fold(items.drop_last()) {
            Ok(st) => arg_step(st, items.last()),
            Err(e) => Err(e),
        }
    }
}

/// What the items of `#[arg(..)]` say of a field.
pub open spec fn spec_parse_arg_items(items: Seq<ArgItem>) -> Result<ArgAttr, ArgAttrError> {
    match arg_fold(items) {
        Ok(st) => Ok(ArgAttr { id: st.id, skip: st.skip, default: st.default }),
        Err(e) => Err(e),
    }
}

fn arg_step_exec(st: ArgState, item: ArgItem) -> (r: Result<ArgState, ArgAttrError>)
    ensures
        r == arg_step(st, item),
{
    match item {
        ArgItem::Assign { key, value } => {
            let e = match value {
                ArgValue::StrLit { expr } => expr,
                ArgValue::Other { expr } => expr,
            };
            match key {
                ArgKey::Id => match value {
                    ArgValue::StrLit { expr } => Ok(ArgState { id: Some(expr), ..st }),
                    ArgValue::Other { expr } => Err(ArgAttrError::IdNotStringLiteral { expr }),
                },
                ArgKey::ValueParser => Ok(ArgState { parser: Some(e), ..st }),
                ArgKey::DefaultValueT => Ok(
                    ArgState { default: Some(DefaultExpr::Value { expr: e }), ..st },
                ),
                ArgKey::DefaultValue | ArgKey::DefaultMissingValue => {
                    let d = match st.parser {
                        Some(p) => DefaultExpr::Parsed { parser: p, value: e },
                        None => DefaultExpr::Into { expr: e },
                    };
                    Ok(ArgState { default: Some(d), ..st })
                },
                ArgKey::Other => Ok(st),
            }
        },
        ArgItem::Skip => Ok(ArgState { skip: true, ..st }),
        ArgItem::Other => Ok(st),
    }
}

/// Read the items of an `#[arg(..)]` attribute, in order: `id` takes a
/// string literal, `value_parser` is remembered for the default values
/// after it, `default_value_t` gives the default as written,
/// `default_value` and `default_missing_value` give it converted (through
/// the value parser when there is one), and `skip` skips the field.
pub fn parse_arg_items(items: &Vec<ArgItem>) -> (r: Result<ArgAttr, ArgAttrError>)
    ensures
        r == spec_parse_arg_items(items@),
{
    let mut st = ArgState { id: None, skip: false, parser: None, default: None };
    let mut i: usize = 0;
    while i < items.len()
        invariant
            i <= items@.len(),
            arg_fold(items@.take(i as int)) == Ok::<ArgState, ArgAttrError>(st),
        decreases items@.len() - i,
    {
        proof {
            assert(items@.take(i + 1).drop_last() =~= items@.take(i as int));
        }
        match arg_step_exec(st, items[i]) {
            Ok(next) => {
                st = next;
            },
            Err(e) => {
                proof {
                    lemma_arg_fold_err(items@, i + 1, e);
                }
                return Err(e);
            },
        }
        i = i + 1;
    }
    proof {
        assert(items@.take(items@.len() as int) =~= items@);
    }
    Ok(ArgAttr { id: st.id, skip: st.skip, default: st.default })
}

/// Once the reading of a prefix is refused, so is the reading of the whole.
proof fn lemma_arg_fold_err(items: Seq<ArgItem>, n: int, e: ArgAttrError)
    requires
        0 <= n <= items.len(),
        arg_fold(items.take(n)) == Err::<ArgState, ArgAttrError>(e),
    ensures
        arg_fold(items) == Err::<ArgState, ArgAttrError>(e),
    decreases items.len() - n,
{
    if n < items.len() {
        assert(items.take(n + 1).drop_last() =~= items.take(n));
        lemma_arg_fold_err(items, n + 1, e);
    } else {
        assert(items.take(n) =~= items);
    }
}

/// An item of `#[command(..)]`.
#[derive(Clone, Copy, Debug, PartialEq, Eq, Structural)]
pub enum CommandItem {
    /// The bare name `flatten`.
    Flatten,
    Other,
}

/// An attribute of a field.
pub enum FieldAttr {
    /// `#[arg(..)]` with its items.
    Arg(Vec<ArgItem>),
    /// `#[command(..)]` with its items.
    Command(Vec<CommandItem>),
    /// `#[subcommand]`.
    Subcommand,
    /// Any other attribute.
    Other,
}

/// A named field: whether its type is `Option<..>`, and its attributes in
/// order.
pub struct FieldSpec {
    pub is_option: bool,
    pub attrs: Vec<FieldAttr>,
}

/// An item of the struct's `#[clap_merge(..)]` attribute.
#[derive(Clone, Copy, Debug, PartialEq, Eq, Structural)]
pub enum MergeOption {
    /// `no_default`: do not generate `Default`.
    NoDefault,
    Other,
}

/// The type the derive is applied to.
pub struct MergeInput {
    /// The items of the first `#[clap_merge(..)]` attribute, if any.
    pub options: Option<Vec<MergeOption>>,
    /// The named fields, in order; `None` when the type is not a struct
    /// with named fields.
    pub fields: Option<Vec<FieldSpec>>,
}

/// The argument id a field is merged from.
#[derive(Clone, Copy, Debug, PartialEq, Eq, Structural)]
pub enum FieldId {
    /// The field's own name.
    Name,
    /// The string literal given by `id = "..."`.
    Literal { expr: usize },
}

/// A field's value in the generated `Default`.
#[derive(Clone, Copy, Debug, PartialEq, Eq, Structural)]
pub enum FieldDefault {
    /// `Some` of the given default (an `Option` field with a default).
    SomeOf(DefaultExpr),
    /// The given default.
    Given(DefaultExpr),
    /// `Default::default()`.
    TypeDefault,
}

/// How `merge` updates a field.
#[derive(Clone, Copy, Debug, PartialEq, Eq, Structural)]
pub enum FieldMerge {
    /// Left alone.
    Skip,
    /// Merged recursively (`command(flatten)` or `subcommand`).
    Recursive,
    /// Set to the argument's value when it comes from the command line.
    OptionValue { id: FieldId },
    /// Set to the argument's value, unwrapped, when it comes from the
    /// command line.
    Value { id: FieldId },
}

/// What the derive generates for a field.
#[derive(Clone, Copy, Debug, PartialEq, Eq, Structural)]
pub struct FieldPlan {
    pub default: FieldDefault,
    pub merge: FieldMerge,
}

/// What the derive generates: whether to write `Default`, and each field's
/// part, in field order.
pub struct MergePlan {
    pub create_default: bool,
    pub fields: Vec<FieldPlan>,
}

/// Why the derive is refused.
#[derive(Clone, Copy, Debug, PartialEq, Eq, Structural)]
pub enum DeriveError {
    /// Not a struct with named fields.
    NotNamedStruct,
    /// An `#[arg(id = ..)]` without a string literal.
    IdNotStringLiteral { expr: usize },
}

/// The state of reading a field's attributes in order.
#[derive(Clone, Copy, Debug, PartialEq, Eq, Structural)]
pub struct FieldState {
    pub id: FieldId,
    pub skip: bool,
    pub recursive: bool,
    pub default: Option<DefaultExpr>,
}

/// The view of a field attribute: its items as sequences.
pub enum FieldAttrView {
    Arg(Seq<ArgItem>),
    Command(Seq<CommandItem>),
    Subcommand,
    Other,
}

pub open spec fn attr_view(a: FieldAttr) -> FieldAttrView {
    match a {
        FieldAttr::Arg(v) => FieldAttrView::Arg(v@),
        FieldAttr::Command(v) => FieldAttrView::Command(v@),
        FieldAttr::Subcommand => FieldAttrView::Subcommand,
        FieldAttr::Other => FieldAttrView::Other,
    }
}

/// A field is skipped until an attribute says otherwise.
pub open spec fn field_start() -> FieldState {
    FieldState { id: FieldId::Name, skip: true, recursive: false, default: None }
}

/// Reading one attribute of a field: an `#[arg]` without a default keeps
/// the default an earlier `#[arg]` gave.
pub open spec fn field_step(st: FieldState, a: FieldAttrView) -> Result<FieldState, DeriveError> {
    match a {
        FieldAttrView::Arg(items) => match spec_parse_arg_items(items) {
            Ok(arg) => Ok(
                FieldState {
                    id: match arg.id {
                        Some(e) => FieldId::Literal { expr: e },
                        None => st.id,
                    },
                    skip: arg.skip,
                    default: match arg.default {
                        Some(d) => Some(d),
                        None => st.default,
                    },
                    ..st
                },
            ),
            Err(ArgAttrError::IdNotStringLiteral { expr }) => Err(
                DeriveError::IdNotStringLiteral { expr },
            ),
        },
        FieldAttrView::Command(items) => if items.contains(CommandItem::Flatten) {
            Ok(FieldState { recursive: true, skip: false, ..st })
        } else {
            Ok(st)
        },
        FieldAttrView::Subcommand => Ok(FieldState { recursive: true, skip: false, ..st }),
        FieldAttrView::Other => Ok(st),
    }
}

/// Reading a field's attributes in order; the first refused one ends it.
pub open spec fn field_fold(attrs: Seq<FieldAttrView>) -> Result<FieldState, DeriveError>
    decreases attrs.len(),
{
    if attrs.len() == 0 {
        Ok(field_start())
    } else {
        match field_fold(attrs.drop_last()) {
            Ok(st) => field_step(st, attrs.last()),
            Err(e) => Err(e),
        }
    }
}

/// The plan for a field after its attributes were read.
pub open spec fn field_plan_of(is_option: bool, st: FieldState) -> FieldPlan {
    FieldPlan {
        default: match st.default {
            Some(d) => if is_option {
                FieldDefault::SomeOf(d)
            } else {
                FieldDefault::Given(d)
            },
            None => FieldDefault::TypeDefault,
        },
        merge: if st.skip {
            FieldMerge::Skip
        } else if st.recursive {
            FieldMerge::Recursive
        } else if is_option {
            FieldMerge::OptionValue { id: st.id }
        } else {
            FieldMerge::Value { id: st.id }
        },
    }
}

/// The plan for a field, or why it is refused.
pub open spec fn spec_field_plan(f: FieldSpec) -> Result<FieldPlan, DeriveError> {
    match field_fold(field_views(f)) {
        Ok(st) => Ok(field_plan_of(f.is_option, st)),
        Err(e) => Err(e),
    }
}

/// A field's attributes by value, in order.
pub open spec fn field_views(f: FieldSpec) -> Seq<FieldAttrView> {
    f.attrs@.map_values(|a: FieldAttr| attr_view(a))
}

/// The attribute asks for the field to be merged recursively:
/// `#[subcommand]`, or `#[command(..)]` with `flatten`.
pub open spec fn makes_recursive(a: FieldAttrView) -> bool {
    match a {
        FieldAttrView::Command(items) => items.contains(CommandItem::Flatten),
        FieldAttrView::Subcommand => true,
        _ => false,
    }
}

/// The attribute is an `#[arg(..)]` with `skip`.
pub open spec fn is_skip_arg(a: FieldAttrView) -> bool {
    match a {
        FieldAttrView::Arg(items) => items.contains(ArgItem::Skip),
        _ => false,
    }
}

/// The attribute decides whether the field is merged: an `#[arg(..)]`, or
/// one that asks for a recursive merge.
pub open spec fn decides_merge(a: FieldAttrView) -> bool {
    (a is Arg) || makes_recursive(a)
}

/// How a field is merged, where the derive accepts it.
pub open spec fn merge_of(f: FieldSpec) -> FieldMerge {
    match spec_field_plan(f) {
        Ok(p) => p.merge,
        Err(_) => FieldMerge::Skip,
    }
}

proof fn lemma_arg_skip(items: Seq<ArgItem>, st: ArgState)
    requires
        arg_fold(items) == Ok::<ArgState, ArgAttrError>(st),
    ensures
        st.skip <==> items.contains(ArgItem::Skip),
    decreases items.len(),
{
    if items.len() > 0 {
        let pre = items.drop_last();
        assert(items =~= pre.push(items.last()));
        match arg_fold(pre) {
            Ok(st0) => {
                lemma_arg_skip(pre, st0);
                if pre.contains(ArgItem::Skip) {
                    let k = choose|k: int| 0 <= k < pre.len() && pre[k] == ArgItem::Skip;
                    assert(items[k] == ArgItem::Skip);
                }
                if items.contains(ArgItem::Skip) {
                    let k = choose|k: int| 0 <= k < items.len() && items[k] == ArgItem::Skip;
                    if k < pre.len() {
                        assert(pre[k] == ArgItem::Skip);
                    }
                }
            },
            Err(_) => {},
        }
    }
}

proof fn lemma_field_fold_merge(views: Seq<FieldAttrView>, st: FieldState)
    requires
        field_fold(views) == Ok::<FieldState, DeriveError>(st),
    ensures
        st.recursive <==> exists|i: int| 0 <= i < views.len() && #[trigger] makes_recursive(views[i]),
        st.skip ==> (forall|i: int| 0 <= i < views.len() ==> !#[trigger] decides_merge(views[i]))
            || (exists|i: int| 0 <= i < views.len() && #[trigger] is_skip_arg(views[i])),
        forall|i: int|
            0 <= i < views.len() && #[trigger] decides_merge(views[i]) && !is_skip_arg(views[i])
                && (forall|j: int| i < j < views.len() ==> !#[trigger] is_skip_arg(views[j]))
                ==> !st.skip,
    decreases views.len(),
{
    if views.len() > 0 {
        let pre = views.drop_last();
        let last = views.last();
        let n = views.len() - 1;
        assert(views[n] == last);
        assert forall|i: int| 0 <= i < n implies views[i] == pre[i] by {}
        match field_fold(pre) {
            Ok(st0) => {
                lemma_field_fold_merge(pre, st0);
                match last {
                    FieldAttrView::Arg(items) => {
                        match spec_parse_arg_items(items) {
                            Ok(arg) => {
                                match arg_fold(items) {
                                    Ok(ast) => lemma_arg_skip(items, ast),
                                    Err(_) => {},
                                }
                                assert(st.skip == is_skip_arg(last));
                                assert(st.recursive == st0.recursive);
                                assert(!makes_recursive(last));
                                if st.recursive {
                                    let i = choose|i: int| 0 <= i < pre.len() && #[trigger] makes_recursive(pre[i]);
                                    assert(makes_recursive(views[i]));
                                }
                                if exists|i: int| 0 <= i < views.len() && #[trigger] makes_recursive(views[i]) {
                                    let i = choose|i: int| 0 <= i < views.len() && #[trigger] makes_recursive(views[i]);
                                    assert(i < n);
                                    assert(makes_recursive(pre[i]));
                                }
                                if st.skip {
                                    assert(is_skip_arg(views[n]));
                                }
                                assert forall|i: int|
                                    0 <= i < views.len() && #[trigger] decides_merge(views[i])
                                        && !is_skip_arg(views[i]) && (forall|j: int|
                                        i < j < views.len() ==> !#[trigger] is_skip_arg(views[j]))
                                        implies !st.skip by {
                                    if i < n {
                                        assert(!is_skip_arg(views[n]));
                                    }
                                }
                            },
                            Err(_) => {},
                        }
                    },
                    _ => {
                        if makes_recursive(last) {
                            assert(!st.skip && st.recursive);
                            assert(makes_recursive(views[n]));
                        } else {
                            assert(st == st0);
                            assert(!decides_merge(last));
                            if st.recursive {
                                let i = choose|i: int| 0 <= i < pre.len() && #[trigger] makes_recursive(pre[i]);
                                assert(makes_recursive(views[i]));
                            }
                            if exists|i: int| 0 <= i < views.len() && #[trigger] makes_recursive(views[i]) {
                                let i = choose|i: int| 0 <= i < views.len() && #[trigger] makes_recursive(views[i]);
                                assert(i < n);
                                assert(makes_recursive(pre[i]));
                            }
                            if st.skip {
                                if exists|i: int| 0 <= i < pre.len() && #[trigger] is_skip_arg(pre[i]) {
                                    let i = choose|i: int| 0 <= i < pre.len() && #[trigger] is_skip_arg(pre[i]);
                                    assert(is_skip_arg(views[i]));
                                } else {
                                    assert forall|i: int| 0 <= i < views.len() implies !#[trigger] decides_merge(views[i]) by {
                                        if i < n {
                                            assert(!decides_merge(pre[i]));
                                        }
                                    }
                                }
                            }
                            assert forall|i: int|
                                0 <= i < views.len() && #[trigger] decides_merge(views[i])
                                    && !is_skip_arg(views[i]) && (forall|j: int|
                                    i < j < views.len() ==> !#[trigger] is_skip_arg(views[j]))
                                    implies !st.skip by {
                                assert(i < n);
                                assert(decides_merge(pre[i]) && !is_skip_arg(pre[i]));
                                assert forall|j: int| i < j < pre.len() implies !#[trigger] is_skip_arg(pre[j]) by {
                                    assert(!is_skip_arg(views[j]));
                                }
                            }
                        }
                    },
                }
            },
            Err(_) => {},
        }
    }
}

/// Which attributes decide how a field is merged, for every field the
/// derive accepts. A field with `#[subcommand]` or `#[command(flatten)]`
/// and no later `#[arg(skip)]` is merged recursively, and only such a
/// field is. A field is left alone only when no attribute decides (it has
/// no `#[arg]`, `#[subcommand]` or `#[command(flatten)]`) or an
/// `#[arg(skip)]` does; a deciding attribute that is not `#[arg(skip)]`,
/// with no `#[arg(skip)]` after it, has the field merged. A field merged
/// from its argument is set as an `Option` exactly when it is one.
pub proof fn law_field_merge(f: FieldSpec)
    requires
        spec_field_plan(f) is Ok,
    ensures
        (exists|i: int|
            0 <= i < field_views(f).len() && #[trigger] makes_recursive(field_views(f)[i]) && (
            forall|j: int| i < j < field_views(f).len() ==> !#[trigger] is_skip_arg(field_views(f)[j])))
            ==> merge_of(f) == FieldMerge::Recursive,
        merge_of(f) == FieldMerge::Recursive ==> exists|i: int|
            0 <= i < field_views(f).len() && #[trigger] makes_recursive(field_views(f)[i]),
        merge_of(f) == FieldMerge::Skip ==> (forall|i: int|
            0 <= i < field_views(f).len() ==> !#[trigger] decides_merge(field_views(f)[i])) || (
        exists|i: int| 0 <= i < field_views(f).len() && #[trigger] is_skip_arg(field_views(f)[i])),
        (exists|i: int|
            0 <= i < field_views(f).len() && #[trigger] decides_merge(field_views(f)[i])
                && !is_skip_arg(field_views(f)[i]) && (forall|j: int|
                i < j < field_views(f).len() ==> !#[trigger] is_skip_arg(field_views(f)[j])))
            ==> merge_of(f) != FieldMerge::Skip,
        (merge_of(f) is OptionValue) ==> f.is_option,
        (merge_of(f) is Value) ==> !f.is_option,
{
    let views = field_views(f);
    match field_fold(views) {
        Ok(st) => {
            lemma_field_fold_merge(views, st);
            if exists|i: int|
                0 <= i < views.len() && #[trigger] makes_recursive(views[i]) && (forall|j: int|
                    i < j < views.len() ==> !#[trigger] is_skip_arg(views[j])) {
                let i = choose|i: int|
                    0 <= i < views.len() && #[trigger] makes_recursive(views[i]) && (forall|j: int|
                        i < j < views.len() ==> !#[trigger] is_skip_arg(views[j]));
                assert(decides_merge(views[i]) && !is_skip_arg(views[i]));
            }
        },
        Err(_) => {},
    }
}

/// The default an attribute gives the field: that of an accepted
/// `#[arg(..)]` with a default item.
pub open spec fn arg_default(a: FieldAttrView) -> Option<DefaultExpr> {
    match a {
        FieldAttrView::Arg(items) => match spec_parse_arg_items(items) {
            Ok(arg) => arg.default,
            Err(_) => None,
        },
        _ => None,
    }
}

/// How a field's default is written, where the derive accepts it.
pub open spec fn default_of(f: FieldSpec) -> FieldDefault {
    match spec_field_plan(f) {
        Ok(p) => p.default,
        Err(_) => FieldDefault::TypeDefault,
    }
}

proof fn lemma_field_fold_default(views: Seq<FieldAttrView>, st: FieldState)
    requires
        field_fold(views) == Ok::<FieldState, DeriveError>(st),
    ensures
        st.default is None <==> forall|i: int| 0 <= i < views.len() ==> #[trigger] arg_default(views[i]) is None,
        forall|i: int|
            0 <= i < views.len() && #[trigger] arg_default(views[i]) is Some && (forall|j: int|
                i < j < views.len() ==> #[trigger] arg_default(views[j]) is None) ==> st.default
                == arg_default(views[i]),
    decreases views.len(),
{
    if views.len() > 0 {
        let pre = views.drop_last();
        let n = views.len() - 1;
        assert forall|i: int| 0 <= i < n implies views[i] == pre[i] by {}
        match field_fold(pre) {
            Ok(st0) => {
                lemma_field_fold_default(pre, st0);
                let last = views[n];
                if arg_default(last) is Some {
                    assert(st.default == arg_default(last));
                    assert forall|i: int|
                        0 <= i < views.len() && #[trigger] arg_default(views[i]) is Some && (forall|j: int|
                            i < j < views.len() ==> #[trigger] arg_default(views[j]) is None)
                            implies st.default == arg_default(views[i]) by {
                        if i < n {
                            assert(arg_default(views[n]) is None);
                        }
                    }
                } else {
                    assert(st.default == st0.default);
                    if st.default is None {
                        assert forall|i: int| 0 <= i < views.len() implies #[trigger] arg_default(views[i]) is None by {
                            if i < n {
                                assert(arg_default(pre[i]) is None);
                            }
                        }
                    } else {
                        let k = choose|k: int| 0 <= k < pre.len() && !(#[trigger] arg_default(pre[k]) is None);
                        assert(!(arg_default(views[k]) is None));
                    }
                    assert forall|i: int|
                        0 <= i < views.len() && #[trigger] arg_default(views[i]) is Some && (forall|j: int|
                            i < j < views.len() ==> #[trigger] arg_default(views[j]) is None)
                            implies st.default == arg_default(views[i]) by {
                        assert(i < n);
                        assert(arg_default(pre[i]) is Some);
                        assert forall|j: int| i < j < pre.len() implies #[trigger] arg_default(pre[j]) is None by {
                            assert(arg_default(views[j]) is None);
                        }
                    }
                }
            },
            Err(_) => {},
        }
    }
}

/// A field's default is that of the last `#[arg(..)]` that gives one, an
/// `#[arg(..)]` without a default keeping it; wrapped in `Some` for an
/// `Option` field. Without any, the field takes its type's default.
pub proof fn law_field_default(f: FieldSpec)
    requires
        spec_field_plan(f) is Ok,
    ensures
        (default_of(f) == FieldDefault::TypeDefault) <==> (forall|i: int|
            0 <= i < field_views(f).len() ==> #[trigger] arg_default(field_views(f)[i]) is None),
        forall|i: int|
            0 <= i < field_views(f).len() && #[trigger] arg_default(field_views(f)[i]) is Some && (
            forall|j: int|
                i < j < field_views(f).len() ==> #[trigger] arg_default(field_views(f)[j]) is None)
                ==> default_of(f) == (if f.is_option {
                FieldDefault::SomeOf(arg_default(field_views(f)[i]).unwrap())
            } else {
                FieldDefault::Given(arg_default(field_views(f)[i]).unwrap())
            }),
{
    let views = field_views(f);
    match field_fold(views) {
        Ok(st) => {
            lemma_field_fold_default(views, st);
        },
        Err(_) => {},
    }
}

proof fn lemma_field_fold_err(attrs: Seq<FieldAttrView>, n: int, e: DeriveError)
    requires
        0 <= n <= attrs.len(),
        field_fold(attrs.take(n)) == Err::<FieldState, DeriveError>(e),
    ensures
        field_fold(attrs) == Err::<FieldState, DeriveError>(e),
    decreases attrs.len() - n,
{
    if n < attrs.len() {
        assert(attrs.take(n + 1).drop_last() =~= attrs.take(n));
        lemma_field_fold_err(attrs, n + 1, e);
    } else {
        assert(attrs.take(n) =~= attrs);
    }
}

fn has_flatten(items: &Vec<CommandItem>) -> (r: bool)
    ensures
        r == items@.contains(CommandItem::Flatten),
{
    let mut i: usize = 0;
    while i < items.len()
        invariant
            i <= items@.len(),
            forall|j: int| 0 <= j < i ==> items@[j] != CommandItem::Flatten,
        decreases items@.len() - i,
    {
        if items[i] == CommandItem::Flatten {
            assert(items@[i as int] == CommandItem::Flatten);
            return true;
        }
        i = i + 1;
    }
    false
}

/// The plan for one field from its attributes, read in order: `#[arg]`
/// sets the id, the skip flag and the default; `#[command(flatten)]` and
/// `#[subcommand]` make it recursive and not skipped.
pub fn field_plan(f: &FieldSpec) -> (r: Result<FieldPlan, DeriveError>)
    ensures
        r == spec_field_plan(*f),
{
    let ghost views = field_views(*f);
    let mut st = FieldState { id: FieldId::Name, skip: true, recursive: false, default: None };
    let mut i: usize = 0;
    while i < f.attrs.len()
        invariant
            i <= f.attrs@.len(),
            views == field_views(*f),
            field_fold(views.take(i as int)) == Ok::<FieldState, DeriveError>(st),
        decreases f.attrs@.len() - i,
    {
        proof {
            assert(views.take(i + 1).drop_last() =~= views.take(i as int));
            assert(views.take(i + 1).last() == attr_view(f.attrs@[i as int]));
        }
        let next: Result<FieldState, DeriveError> = match &f.attrs[i] {
            FieldAttr::Arg(items) => match parse_arg_items(items) {
                Ok(arg) => Ok(
                    FieldState {
                        id: match arg.id {
                            Some(e) => FieldId::Literal { expr: e },
                            None => st.id,
                        },
                        skip: arg.skip,
                        default: match arg.default {
                            Some(d) => Some(d),
                            None => st.default,
                        },
                        ..st
                    },
                ),
                Err(ArgAttrError::IdNotStringLiteral { expr }) => Err(
                    DeriveError::IdNotStringLiteral { expr },
                ),
            },
            FieldAttr::Command(items) => if has_flatten(items) {
                Ok(FieldState { recursive: true, skip: false, ..st })
            } else {
                Ok(st)
            },
            FieldAttr::Subcommand => Ok(FieldState { recursive: true, skip: false, ..st }),
            FieldAttr::Other => Ok(st),
        };
        match next {
            Ok(n) => {
                st = n;
            },
            Err(e) => {
                proof {
                    lemma_field_fold_err(views, i + 1, e);
                }
                return Err(e);
            },
        }
        i = i + 1;
    }
    proof {
        assert(views.take(f.attrs@.len() as int) =~= views);
    }
    let default = match st.default {
        Some(d) => if f.is_option {
            FieldDefault::SomeOf(d)
        } else {
            FieldDefault::Given(d)
        },
        None => FieldDefault::TypeDefault,
    };
    let merge = if st.skip {
        FieldMerge::Skip
    } else if st.recursive {
        FieldMerge::Recursive
    } else if f.is_option {
        FieldMerge::OptionValue { id: st.id }
    } else {
        FieldMerge::Value { id: st.id }
    };
    Ok(FieldPlan { default, merge })
}

/// Whether to generate `Default`: unless the struct's `#[clap_merge(..)]`
/// says `no_default`.
pub open spec fn spec_create_default(options: Option<Seq<MergeOption>>) -> bool {
    match options {
        Some(items) => !items.contains(MergeOption::NoDefault),
        None => true,
    }
}

/// The plans of `fields`, in order, or the first field's refusal.
pub open spec fn fields_fold(fields: Seq<FieldSpec>) -> Result<Seq<FieldPlan>, DeriveError>
    decreases fields.len(),
{
    if fields.len() == 0 {
        Ok(Seq::empty())
    } else {
        match fields_fold(fields.drop_last()) {
            Ok(ps) => match spec_field_plan(fields.last()) {
                Ok(p) => Ok(ps.push(p)),
                Err(e) => Err(e),
            },
            Err(e) => Err(e),
        }
    }
}

proof fn lemma_fields_fold_err(fields: Seq<FieldSpec>, n: int, e: DeriveError)
    requires
        0 <= n <= fields.len(),
        fields_fold(fields.take(n)) == Err::<Seq<FieldPlan>, DeriveError>(e),
    ensures
        fields_fold(fields) == Err::<Seq<FieldPlan>, DeriveError>(e),
    decreases fields.len() - n,
{
    if n < fields.len() {
        assert(fields.take(n + 1).drop_last() =~= fields.take(n));
        lemma_fields_fold_err(fields, n + 1, e);
    } else {
        assert(fields.take(n) =~= fields);
    }
}

/// The plan of the whole derive: refused for a type that is not a struct
/// with named fields, and for the first field whose attributes are
/// refused; otherwise each field's plan, in order, and whether to write
/// `Default`.
pub fn merge_plan(input: &MergeInput) -> (r: Result<MergePlan, DeriveError>)
    ensures
        input.fields is None ==> r == Err::<MergePlan, DeriveError>(DeriveError::NotNamedStruct),
        input.fields matches Some(fs) ==> match fields_fold(fs@) {
            Ok(ps) => r matches Ok(plan) && plan.fields@ == ps && plan.create_default
                == spec_create_default(
                match input.options {
                    Some(o) => Some(o@),
                    None => None,
                },
            ),
            Err(e) => r == Err::<MergePlan, DeriveError>(e),
        },
{
    let create_default = match &input.options {
        Some(items) => {
            let mut no_default = false;
            let mut i: usize = 0;
            while i < items.len()
                invariant
                    i <= items@.len(),
                    no_default <==> items@.take(i as int).contains(MergeOption::NoDefault),
                decreases items@.len() - i,
            {
                proof {
                    let t = items@.take(i + 1);
                    assert(t =~= items@.take(i as int).push(items@[i as int]));
                    if items@.take(i as int).contains(MergeOption::NoDefault) {
                        let k = choose|k: int| 0 <= k < i && items@.take(i as int)[k] == MergeOption::NoDefault;
                        assert(t[k] == MergeOption::NoDefault);
                    }
                    if t.contains(MergeOption::NoDefault) {
                        let k = choose|k: int| 0 <= k < i + 1 && t[k] == MergeOption::NoDefault;
                        if k < i {
                            assert(items@.take(i as int)[k] == MergeOption::NoDefault);
                        }
                    }
                    if items@[i as int] == MergeOption::NoDefault {
                        assert(t[i as int] == MergeOption::NoDefault);
                    }
                }
                if items[i] == MergeOption::NoDefault {
                    no_default = true;
                }
                i = i + 1;
            }
            proof {
                assert(items@.take(items@.len() as int) =~= items@);
            }
            !no_default
        },
        None => true,
    };
    let fields = match &input.fields {
        Some(fs) => fs,
        None => {
            return Err(DeriveError::NotNamedStruct);
        },
    };
    let mut plans: Vec<FieldPlan> = Vec::new();
    let mut i: usize = 0;
    while i < fields.len()
        invariant
            i <= fields@.len(),
            input.fields == Some(*fields),
            fields_fold(fields@.take(i as int)) == Ok::<Seq<FieldPlan>, DeriveError>(plans@),
        decreases fields@.len() - i,
    {
        proof {
            assert(fields@.take(i + 1).drop_last() =~= fields@.take(i as int));
            assert(fields@.take(i + 1).last() == fields@[i as int]);
        }
        match field_plan(&fields[i]) {
            Ok(p) => {
                plans.push(p);
            },
            Err(e) => {
                proof {
                    lemma_fields_fold_err(fields@, i + 1, e);
                }
                return Err(e);
            },
        }
        i = i + 1;
    }
    proof {
        assert(fields@.take(fields@.len() as int) =~= fields@);
    }
    Ok(MergePlan { create_default, fields: plans })
}

} // verus!
