//! A GraphQL schema as plain values: its types, their fields and arguments.

use crate::projection::{comes_first, not_after};
use crate::text::{chars_of, has_prefix, has_suffix, owned, text_of, text_opt};
use vstd::prelude::*;

verus! {

/// A reference to a type: its name, whether it is a list of it, and what may
/// not be null.
pub struct TypeRef {
    pub name: String,
    pub list: bool,
    /// Whether an item of the list may not be null.
    pub item_required: bool,
    pub required: bool,
}

/// What a [`TypeRef`] holds.
#[verifier::ext_equal]
pub struct TypeRefV {
    pub name: Seq<char>,
    pub list: bool,
    pub item_required: bool,
    pub required: bool,
}

impl View for TypeRef {
    type V = TypeRefV;

    open spec fn view(&self) -> TypeRefV {
        TypeRefV {
            name: self.name@,
            list: self.list,
            item_required: self.item_required,
            required: self.required,
        }
    }
}

/// A type that may be null.
pub open spec fn optional(name: Seq<char>) -> TypeRefV {
    TypeRefV { name, list: false, item_required: false, required: false }
}

/// A type that may not be null.
pub open spec fn required(name: Seq<char>) -> TypeRefV {
    TypeRefV { name, list: false, item_required: false, required: true }
}

/// A list that may be null, of items that may not.
pub open spec fn optional_list(name: Seq<char>) -> TypeRefV {
    TypeRefV { name, list: true, item_required: true, required: false }
}

/// A list that may not be null, of items that may not.
pub open spec fn required_list(name: Seq<char>) -> TypeRefV {
    TypeRefV { name, list: true, item_required: true, required: true }
}

/// A list that may be null, of items that may be.
pub open spec fn loose_list(name: Seq<char>) -> TypeRefV {
    TypeRefV { name, list: true, item_required: false, required: false }
}

impl TypeRef {
    /// A type that may be null.
    pub fn named(name: &str) -> (r: TypeRef)
        ensures
            r@ == optional(name@),
    {
        TypeRef { name: owned(name), list: false, item_required: false, required: false }
    }

    /// A type that may not be null.
    pub fn named_nn(name: &str) -> (r: TypeRef)
        ensures
            r@ == required(name@),
    {
        TypeRef { name: owned(name), list: false, item_required: false, required: true }
    }

    /// A list that may be null, of items that may be.
    pub fn named_list(name: &str) -> (r: TypeRef)
        ensures
            r@ == loose_list(name@),
    {
        TypeRef { name: owned(name), list: true, item_required: false, required: false }
    }

    /// A list that may be null, of items that may not.
    pub fn named_nn_list(name: &str) -> (r: TypeRef)
        ensures
            r@ == optional_list(name@),
    {
        TypeRef { name: owned(name), list: true, item_required: true, required: false }
    }

    /// A list that may not be null, of items that may not.
    pub fn named_nn_list_nn(name: &str) -> (r: TypeRef)
        ensures
            r@ == required_list(name@),
    {
        TypeRef { name: owned(name), list: true, item_required: true, required: true }
    }
}

/// `s` without the characters `c` that it ends in.
pub open spec fn trimmed_end(s: Seq<char>, c: char) -> Seq<char>
    decreases s.len(),
{
    if s.len() > 0 && s.last() == c {
        trimmed_end(s.drop_last(), c)
    } else {
        s
    }
}

/// `s` without the characters `c` that it begins with.
pub open spec fn trimmed_start(s: Seq<char>, c: char) -> Seq<char>
    decreases s.len(),
{
    if s.len() > 0 && s[0] == c {
        trimmed_start(s.drop_first(), c)
    } else {
        s
    }
}

fn trim_end(s: &str, c: char) -> (r: String)
    ensures
        r@ == trimmed_end(s@, c),
{
    let cs = chars_of(s);
    let mut n: usize = cs.len();
    assert(s@.take(n as int) =~= s@);
    while n > 0 && cs[n - 1] == c
        invariant
            n <= cs@.len(),
            cs@ == s@,
            trimmed_end(s@, c) == trimmed_end(s@.take(n as int), c),
        decreases n,
    {
        assert(s@.take(n as int).last() == s@[n - 1]);
        assert(s@.take(n as int).drop_last() =~= s@.take(n - 1));
        n -= 1;
    }
    proof {
        if n > 0 {
            assert(s@.take(n as int).last() == s@[n - 1]);
        }
        assert(s@.take(n as int) =~= s@.subrange(0, n as int));
    }
    text_of(&cs, 0, n)
}

fn trim_start(s: &str, c: char) -> (r: String)
    ensures
        r@ == trimmed_start(s@, c),
{
    let cs = chars_of(s);
    let mut n: usize = 0;
    assert(s@.skip(0) =~= s@);
    while n < cs.len() && cs[n] == c
        invariant
            n <= cs@.len(),
            cs@ == s@,
            trimmed_start(s@, c) == trimmed_start(s@.skip(n as int), c),
        decreases cs.len() - n,
    {
        assert(s@.skip(n as int)[0] == s@[n as int]);
        assert(s@.skip(n as int).drop_first() =~= s@.skip(n + 1));
        n += 1;
    }
    proof {
        if n < s@.len() {
            assert(s@.skip(n as int)[0] == s@[n as int]);
        }
        assert(s@.skip(n as int) =~= s@.subrange(n as int, s@.len() as int));
    }
    text_of(&cs, n, cs.len())
}

/// A written type, as a reference: `[T!]!` and its weaker forms.
pub open spec fn read_type(text: Seq<char>) -> TypeRefV {
    let list = has_prefix(text, "["@);
    let outer = trimmed_end(text, '!');
    let inner = if list {
        trimmed_end(trimmed_start(outer, '['), ']')
    } else {
        outer
    };
    TypeRefV {
        name: trimmed_end(inner, '!'),
        list,
        item_required: list && has_suffix(inner, "!"@),
        required: has_suffix(text, "!"@),
    }
}

/// Convert a written GraphQL type, such as `[users!]!`, to a reference.
pub fn graphql_type_ref(type_str: &str) -> (r: TypeRef)
    ensures
        r@ == read_type(type_str@),
{
    let list = crate::text::starts_with(type_str, "[");
    let required = crate::text::ends_with(type_str, "!");
    let outer = trim_end(type_str, '!');
    let inner = if list {
        trim_end(&trim_start(&outer, '['), ']')
    } else {
        outer
    };
    let item_required = list && crate::text::ends_with(&inner, "!");
    TypeRef { name: trim_end(&inner, '!'), list, item_required, required }
}

/// What answers a field.
#[derive(Clone, Copy, PartialEq, Eq, Structural)]
pub enum Source {
    /// A column of the row, of which a part can be asked for where it is a
    /// document.
    Column { path: bool },
    /// Rows related to the row, or the one related row.
    Related { list: bool },
    /// Numbers about the rows related to the row.
    RelatedNumbers,
    /// How many rows a write changed.
    AffectedRows,
    /// The rows a write changed.
    Returning,
    /// The numbers of an aggregate, and its rows.
    Numbers,
    Nodes,
    /// A count, under the name it was asked for.
    Count,
    /// One function's numbers, and the number of one column.
    FunctionNumbers,
    ColumnNumber,
    /// The rows of the root field of that index, and the numbers about them.
    RootRows(usize),
    RootNumbers(usize),
    /// The mutation field of that index.
    RootMutation(usize),
    /// The rows of the function field of that index, and the numbers about
    /// them.
    FunctionRows(usize),
    FunctionAggregate(usize),
    /// Nothing: a field that stands for there being none.
    Nothing,
}

/// An argument of a field, or a field of an input.
pub struct Argument {
    pub name: String,
    pub ty: TypeRef,
    pub description: Option<String>,
    /// Whether it is an empty list where it is left out.
    pub empty_default: bool,
}

/// What an [`Argument`] holds.
#[verifier::ext_equal]
pub struct ArgumentV {
    pub name: Seq<char>,
    pub ty: TypeRefV,
    pub description: Option<Seq<char>>,
    pub empty_default: bool,
}

impl View for Argument {
    type V = ArgumentV;

    open spec fn view(&self) -> ArgumentV {
        ArgumentV {
            name: self.name@,
            ty: self.ty@,
            description: text_opt(self.description),
            empty_default: self.empty_default,
        }
    }
}

/// What several hold.
pub open spec fn arguments(v: Seq<Argument>) -> Seq<ArgumentV> {
    v.map_values(|x: Argument| x@)
}

/// Adds one at the end of a list.
pub fn push_argument(v: &mut Vec<Argument>, x: Argument)
    ensures
        arguments(final(v)@) == arguments(old(v)@).push(x@),
{
    proof {
        assert(arguments(v@.push(x)) =~= arguments(v@).push(x@));
    }
    v.push(x);
}

/// A list of none.
pub fn no_arguments() -> (r: Vec<Argument>)
    ensures
        r@.len() == 0,
        arguments(r@) == Seq::<ArgumentV>::empty(),
{
    let r: Vec<Argument> = Vec::new();
    assert(arguments(r@) =~= Seq::<ArgumentV>::empty());
    r
}

/// A field of an object type.
pub struct FieldDef {
    pub name: String,
    pub ty: TypeRef,
    pub arguments: Vec<Argument>,
    pub description: Option<String>,
    /// Whether other services may answer it too.
    pub shareable: bool,
    /// What answers it.
    pub source: Source,
}

/// What a [`FieldDef`] holds.
#[verifier::ext_equal]
pub struct FieldDefV {
    pub name: Seq<char>,
    pub ty: TypeRefV,
    pub arguments: Seq<ArgumentV>,
    pub description: Option<Seq<char>>,
    pub shareable: bool,
    pub source: Source,
}

impl View for FieldDef {
    type V = FieldDefV;

    open spec fn view(&self) -> FieldDefV {
        FieldDefV {
            name: self.name@,
            ty: self.ty@,
            arguments: arguments(self.arguments@),
            description: text_opt(self.description),
            shareable: self.shareable,
            source: self.source,
        }
    }
}

/// What several hold.
pub open spec fn field_defs(v: Seq<FieldDef>) -> Seq<FieldDefV> {
    v.map_values(|x: FieldDef| x@)
}

/// Adds one at the end of a list.
pub fn push_field_def(v: &mut Vec<FieldDef>, x: FieldDef)
    ensures
        field_defs(final(v)@) == field_defs(old(v)@).push(x@),
{
    proof {
        assert(field_defs(v@.push(x)) =~= field_defs(v@).push(x@));
    }
    v.push(x);
}

/// A list of none.
pub fn no_field_defs() -> (r: Vec<FieldDef>)
    ensures
        r@.len() == 0,
        field_defs(r@) == Seq::<FieldDefV>::empty(),
{
    let r: Vec<FieldDef> = Vec::new();
    assert(field_defs(r@) =~= Seq::<FieldDefV>::empty());
    r
}

/// An object type.
pub struct ObjectDef {
    pub name: String,
    pub description: Option<String>,
    /// The key it is found by across services.
    pub key: Option<String>,
    pub fields: Vec<FieldDef>,
}

/// What an [`ObjectDef`] holds.
#[verifier::ext_equal]
pub struct ObjectDefV {
    pub name: Seq<char>,
    pub description: Option<Seq<char>>,
    pub key: Option<Seq<char>>,
    pub fields: Seq<FieldDefV>,
}

impl View for ObjectDef {
    type V = ObjectDefV;

    open spec fn view(&self) -> ObjectDefV {
        ObjectDefV {
            name: self.name@,
            description: text_opt(self.description),
            key: text_opt(self.key),
            fields: field_defs(self.fields@),
        }
    }
}

/// What several hold.
pub open spec fn object_defs(v: Seq<ObjectDef>) -> Seq<ObjectDefV> {
    v.map_values(|x: ObjectDef| x@)
}

/// Adds one at the end of a list.
pub fn push_object_def(v: &mut Vec<ObjectDef>, x: ObjectDef)
    ensures
        object_defs(final(v)@) == object_defs(old(v)@).push(x@),
{
    proof {
        assert(object_defs(v@.push(x)) =~= object_defs(v@).push(x@));
    }
    v.push(x);
}

/// A list of none.
pub fn no_object_defs() -> (r: Vec<ObjectDef>)
    ensures
        r@.len() == 0,
        object_defs(r@) == Seq::<ObjectDefV>::empty(),
{
    let r: Vec<ObjectDef> = Vec::new();
    assert(object_defs(r@) =~= Seq::<ObjectDefV>::empty());
    r
}

/// An input type.
pub struct InputDef {
    pub name: String,
    pub description: String,
    pub fields: Vec<Argument>,
}

/// What an [`InputDef`] holds.
#[verifier::ext_equal]
pub struct InputDefV {
    pub name: Seq<char>,
    pub description: Seq<char>,
    pub fields: Seq<ArgumentV>,
}

impl View for InputDef {
    type V = InputDefV;

    open spec fn view(&self) -> InputDefV {
        InputDefV {
            name: self.name@,
            description: self.description@,
            fields: arguments(self.fields@),
        }
    }
}

/// What several hold.
pub open spec fn input_defs(v: Seq<InputDef>) -> Seq<InputDefV> {
    v.map_values(|x: InputDef| x@)
}

/// Adds one at the end of a list.
pub fn push_input_def(v: &mut Vec<InputDef>, x: InputDef)
    ensures
        input_defs(final(v)@) == input_defs(old(v)@).push(x@),
{
    proof {
        assert(input_defs(v@.push(x)) =~= input_defs(v@).push(x@));
    }
    v.push(x);
}

/// A list of none.
pub fn no_input_defs() -> (r: Vec<InputDef>)
    ensures
        r@.len() == 0,
        input_defs(r@) == Seq::<InputDefV>::empty(),
{
    let r: Vec<InputDef> = Vec::new();
    assert(input_defs(r@) =~= Seq::<InputDefV>::empty());
    r
}

/// A member of an enum.
pub struct EnumItem {
    pub name: String,
    pub description: Option<String>,
}

/// What an [`EnumItem`] holds.
#[verifier::ext_equal]
pub struct EnumItemV {
    pub name: Seq<char>,
    pub description: Option<Seq<char>>,
}

impl View for EnumItem {
    type V = EnumItemV;

    open spec fn view(&self) -> EnumItemV {
        EnumItemV {
            name: self.name@,
            description: text_opt(self.description),
        }
    }
}

/// What several hold.
pub open spec fn enum_items(v: Seq<EnumItem>) -> Seq<EnumItemV> {
    v.map_values(|x: EnumItem| x@)
}

/// Adds one at the end of a list.
pub fn push_enum_item(v: &mut Vec<EnumItem>, x: EnumItem)
    ensures
        enum_items(final(v)@) == enum_items(old(v)@).push(x@),
{
    proof {
        assert(enum_items(v@.push(x)) =~= enum_items(v@).push(x@));
    }
    v.push(x);
}

/// A list of none.
pub fn no_enum_items() -> (r: Vec<EnumItem>)
    ensures
        r@.len() == 0,
        enum_items(r@) == Seq::<EnumItemV>::empty(),
{
    let r: Vec<EnumItem> = Vec::new();
    assert(enum_items(r@) =~= Seq::<EnumItemV>::empty());
    r
}

/// An enum.
pub struct EnumDef {
    pub name: String,
    pub description: String,
    pub items: Vec<EnumItem>,
}

/// What an [`EnumDef`] holds.
#[verifier::ext_equal]
pub struct EnumDefV {
    pub name: Seq<char>,
    pub description: Seq<char>,
    pub items: Seq<EnumItemV>,
}

impl View for EnumDef {
    type V = EnumDefV;

    open spec fn view(&self) -> EnumDefV {
        EnumDefV {
            name: self.name@,
            description: self.description@,
            items: enum_items(self.items@),
        }
    }
}

/// What several hold.
pub open spec fn enum_defs(v: Seq<EnumDef>) -> Seq<EnumDefV> {
    v.map_values(|x: EnumDef| x@)
}

/// Adds one at the end of a list.
pub fn push_enum_def(v: &mut Vec<EnumDef>, x: EnumDef)
    ensures
        enum_defs(final(v)@) == enum_defs(old(v)@).push(x@),
{
    proof {
        assert(enum_defs(v@.push(x)) =~= enum_defs(v@).push(x@));
    }
    v.push(x);
}

/// A list of none.
pub fn no_enum_defs() -> (r: Vec<EnumDef>)
    ensures
        r@.len() == 0,
        enum_defs(r@) == Seq::<EnumDefV>::empty(),
{
    let r: Vec<EnumDef> = Vec::new();
    assert(enum_defs(r@) =~= Seq::<EnumDefV>::empty());
    r
}

/// An argument with nothing said of it.
pub open spec fn plain_argument(name: Seq<char>, ty: TypeRefV) -> ArgumentV {
    ArgumentV { name, ty, description: None, empty_default: false }
}

impl Argument {
    /// An argument with nothing said of it.
    pub fn new(name: &str, ty: TypeRef) -> (r: Argument)
        ensures
            r@ == plain_argument(name@, ty@),
    {
        Argument { name: owned(name), ty, description: None, empty_default: false }
    }
}

/// Fields with one more in its place by name: after every field that its name
/// does not come before.
pub open spec fn placed_field(s: Seq<FieldDefV>, f: FieldDefV) -> Seq<FieldDefV>
    decreases s.len(),
{
    if s.len() == 0 {
        seq![f]
    } else if not_after(s.last().name, f.name, 0) {
        s.push(f)
    } else {
        placed_field(s.drop_last(), f).push(s.last())
    }
}

/// Puts a field in its place by name.
pub fn place_field(fields: &mut Vec<FieldDef>, f: FieldDef)
    ensures
        field_defs(final(fields)@) == placed_field(field_defs(old(fields)@), f@),
{
    let ghost all = field_defs(fields@);
    let ghost added = f@;
    let mut i: usize = fields.len();
    let ghost mut tail: Seq<FieldDefV> = Seq::empty();
    assert(all.take(i as int) =~= all);
    assert(placed_field(all, added) + tail =~= placed_field(all, added));
    while i > 0 && !comes_first(&fields[i - 1].name, &f.name)
        invariant
            i <= fields@.len(),
            all == field_defs(fields@),
            added == f@,
            tail == all.skip(i as int),
            placed_field(all, added) == placed_field(all.take(i as int), added) + tail,
        decreases i,
    {
        proof {
            let front = all.take(i as int);
            assert(front.last() == all[i - 1]);
            assert(front.drop_last() =~= all.take(i - 1));
            assert(placed_field(front, added) == placed_field(front.drop_last(), added).push(
                front.last(),
            ));
            assert(placed_field(front.drop_last(), added).push(front.last()) + tail
                =~= placed_field(front.drop_last(), added) + all.skip(i - 1));
            tail = all.skip(i - 1);
        }
        i -= 1;
    }
    proof {
        let front = all.take(i as int);
        assert(placed_field(front, added) =~= front.push(added)) by {
            if i > 0 {
                assert(front.last() == all[i - 1]);
            } else {
                assert(front =~= Seq::<FieldDefV>::empty());
            }
        }
        assert(front.push(added) + tail =~= field_defs(fields@.insert(i as int, f)));
    }
    fields.insert(i, f);
}

} // verus!
