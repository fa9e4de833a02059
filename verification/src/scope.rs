//! The table that a boolean expression is read against.

use crate::catalog::{
    column_behind, column_for, computed_behind, computed_for, fields_of, relationships_of,
    CatalogueRelationship, DeclaredRelationship, NameOverrides, QualifiedIdentifier,
    RelationshipField, SchemaCache, Table, TypeRelationships,
};
use crate::comparison::Vocabulary;
use crate::computed::{computed_call, computed_sql};
use crate::error::{plain_refusal, Error, ErrorV};
use crate::json::{jsons, lemma_array_view, Json, JsonV};
use crate::lookup::{deref_opt, find_named, find_qualified, named, qualified};
use crate::role::Caller;
use crate::text::{
    cat2, cat3, contains_text, escape_ident, escape_ident2, has_text, ident, ident2, owned, same,
    str_opt, text_opt, texts,
};
use vstd::prelude::*;

verus! {

/// Everything that building SQL for a request looks things up in.
#[derive(Clone, Copy)]
pub struct Sources<'a> {
    pub names: &'a NameOverrides,
    pub words: &'a Vocabulary,
    pub cache: &'a SchemaCache,
    pub relationships: &'a Vec<TypeRelationships>,
}

/// What a scope needs to follow a relationship.
#[derive(Clone, Copy)]
pub struct WhereResolution<'a> {
    pub cache: &'a SchemaCache,
    pub relationships: &'a Vec<TypeRelationships>,
}

/// The table a boolean expression is being read against.
///
/// Columns are qualified with `sql_ref`, so that a predicate over a
/// relationship, which becomes a correlated subselect, can tell two tables
/// apart. `resolution` is absent where there is no catalogue to hand, and a
/// relationship is then not followed.
pub struct WhereScope<'a> {
    /// The table itself.
    pub qualified: QualifiedIdentifier,
    /// How to refer to this table's columns in SQL.
    pub sql_ref: String,
    /// How to refer to this table's row in SQL.
    pub row_ref: String,
    /// The GraphQL type, which is the key into the relationships.
    pub typename: String,
    /// How to refer to the columns of the table the predicate began at.
    pub root_ref: String,
    /// The table the predicate began at.
    pub root_qualified: QualifiedIdentifier,
    /// The names columns are exposed under.
    pub names: &'a NameOverrides,
    /// The words that stand for SQL.
    pub words: &'a Vocabulary,
    pub resolution: Option<WhereResolution<'a>>,
    /// Who is asking, so that the far side of a relationship is narrowed to
    /// what that caller may read. Nothing is narrowed where there is none.
    pub caller: Option<&'a Caller>,
}

/// What a [`WhereScope`] holds.
pub struct ScopeV {
    pub qualified: (Seq<char>, Seq<char>),
    pub sql_ref: Seq<char>,
    pub row_ref: Seq<char>,
    pub typename: Seq<char>,
    pub root_ref: Seq<char>,
    pub root_qualified: (Seq<char>, Seq<char>),
    pub names: NameOverrides,
    pub words: Vocabulary,
    pub resolution: Option<(SchemaCache, Vec<TypeRelationships>)>,
    pub caller: Option<Caller>,
}

impl<'a> View for WhereScope<'a> {
    type V = ScopeV;

    open spec fn view(&self) -> ScopeV {
        ScopeV {
            qualified: self.qualified@,
            sql_ref: self.sql_ref@,
            row_ref: self.row_ref@,
            typename: self.typename@,
            root_ref: self.root_ref@,
            root_qualified: self.root_qualified@,
            names: *self.names,
            words: *self.words,
            resolution: match self.resolution {
                Some(r) => Some((*r.cache, *r.relationships)),
                None => None,
            },
            caller: match self.caller {
                Some(c) => Some(*c),
                None => None,
            },
        }
    }
}

impl ScopeV {
    /// A scope over a table addressed by its qualified name.
    pub open spec fn over(
        schema: Seq<char>,
        table: Seq<char>,
        typename: Seq<char>,
        names: NameOverrides,
        words: Vocabulary,
    ) -> ScopeV {
        ScopeV {
            qualified: (schema, table),
            sql_ref: ident2(schema, table),
            row_ref: ident(table),
            typename,
            root_ref: ident2(schema, table),
            root_qualified: (schema, table),
            names,
            words,
            resolution: None,
            caller: None,
        }
    }

    /// The same table under an alias. The root moves with it where this is
    /// the table the predicate began at.
    pub open spec fn renamed(self, alias: Seq<char>) -> ScopeV {
        ScopeV {
            sql_ref: ident(alias),
            row_ref: ident(alias),
            root_ref: if self.root_ref == self.sql_ref {
                ident(alias)
            } else {
                self.root_ref
            },
            ..self
        }
    }

    /// A scope over an aliased table that can follow relationships.
    pub open spec fn over_alias(
        schema: Seq<char>,
        table: Seq<char>,
        alias: Seq<char>,
        typename: Seq<char>,
        cache: SchemaCache,
        relationships: Vec<TypeRelationships>,
        names: NameOverrides,
        words: Vocabulary,
    ) -> ScopeV {
        ScopeV {
            qualified: (schema, table),
            sql_ref: ident(alias),
            row_ref: ident(alias),
            typename,
            root_ref: ident(alias),
            root_qualified: (schema, table),
            names,
            words,
            resolution: Some((cache, relationships)),
            caller: None,
        }
    }

    /// A scope over another table, entered from this one. The root and the
    /// caller are carried along.
    pub open spec fn entering(
        self,
        schema: Seq<char>,
        table: Seq<char>,
        alias: Seq<char>,
        typename: Seq<char>,
    ) -> ScopeV {
        ScopeV {
            qualified: (schema, table),
            sql_ref: ident(alias),
            row_ref: ident(alias),
            typename,
            ..self
        }
    }

    /// The same scope as the server sees it: no caller, and the root at this
    /// table, which is the one a permission is written on.
    pub open spec fn system(self) -> ScopeV {
        ScopeV {
            root_ref: self.sql_ref,
            root_qualified: self.qualified,
            caller: None,
            ..self
        }
    }

    /// The table in the catalogue.
    pub open spec fn table(self) -> Option<Table> {
        match self.resolution {
            Some((cache, _)) => cache.table(self.qualified.0, self.qualified.1),
            None => None,
        }
    }

    /// The column behind a field name.
    pub open spec fn column_name(self, name: Seq<char>) -> Seq<char> {
        column_behind(self.names, self.qualified.0, self.qualified.1, name)
    }

    /// A field as SQL: a column of the table, or the call behind a computed
    /// field.
    pub open spec fn column(self, name: Seq<char>) -> Seq<char> {
        let plain = self.sql_ref + "."@ + ident(self.column_name(name));
        match self.table() {
            Some(table) => if table.column(self.column_name(name)) is Some {
                plain
            } else {
                match computed_behind(self.names, table, name) {
                    Some(definition) => computed_sql(
                        definition,
                        self.row_ref + ".*"@,
                        self.row_ref,
                    ),
                    None => plain,
                }
            },
            None => plain,
        }
    }

    /// The PostgreSQL type of the column behind a field.
    pub open spec fn column_type(self, name: Seq<char>) -> Option<Seq<char>> {
        match self.table() {
            Some(table) => match table.column(self.column_name(name)) {
                Some(column) => Some(column.nominal_type@),
                None => None,
            },
            None => None,
        }
    }

    /// The other side of a column-to-column comparison: a column of this
    /// table, or after `$` one of the table the predicate began at.
    pub open spec fn other_column(self, operand: JsonV, op: Seq<char>) -> Result<
        Seq<char>,
        ErrorV,
    > {
        let here = |name: Seq<char>| self.sql_ref + "."@ + ident(self.column_name(name));
        match operand {
            JsonV::String(name) => Ok(here(name)),
            JsonV::Array(path) => if path.len() == 1 && path[0] is String {
                Ok(here(path[0]->String_0))
            } else if path.len() == 2 && path[0] == JsonV::String("$"@) && path[1] is String {
                Ok(
                    self.root_ref + "."@ + ident(
                        column_behind(
                            self.names,
                            self.root_qualified.0,
                            self.root_qualified.1,
                            path[1]->String_0,
                        ),
                    ),
                )
            } else {
                Err(
                    plain_refusal(
                        "the \""@ + op
                            + "\" comparison takes the name of a column, or [\"$\", \"a column\"]"@,
                    ),
                )
            },
            _ => Err(
                plain_refusal(
                    "the \""@ + op
                        + "\" comparison takes the name of a column, written as a string"@,
                ),
            ),
        }
    }

    /// The relationship a predicate follows under a name: the one the type
    /// publishes, else one the metadata declares, else one the catalogue has.
    pub open spec fn relationship(self, name: Seq<char>) -> Option<(Seq<char>, RelationshipField)> {
        match self.resolution {
            None => None,
            Some((cache, all)) => match published_field(all@, self.typename, name) {
                Some(field) => Some((field.name@, field)),
                None => match self.table() {
                    None => None,
                    Some(table) => match declared_field(self.names, cache, table, name) {
                        Some(found) => Some(found),
                        None => catalogue_from(
                            catalogued(cache, table),
                            0,
                            self.names,
                            table,
                            name,
                        ),
                    },
                },
            },
        }
    }
}

/// The relationship a type publishes under a name.
pub open spec fn published_field(
    all: Seq<TypeRelationships>,
    typename: Seq<char>,
    name: Seq<char>,
) -> Option<RelationshipField> {
    match fields_of(all, typename) {
        Some(fields) => named(fields@, name),
        None => None,
    }
}

/// The relationships the catalogue has of a table.
pub open spec fn catalogued(cache: SchemaCache, table: Table) -> Seq<CatalogueRelationship> {
    match qualified(cache.relationships@, table.schema@, table.name@) {
        Some(entry) => entry.found@,
        None => Seq::empty(),
    }
}

/// The first relationship from the `i`th on that a key names.
pub open spec fn keyed_from(found: Seq<CatalogueRelationship>, i: nat, key: Seq<char>) -> Option<
    RelationshipField,
>
    decreases found.len() - i,
{
    if i >= found.len() {
        None
    } else if has_text(texts(found[i as int].keys@), key) {
        Some(found[i as int].field)
    } else {
        keyed_from(found, i + 1, key)
    }
}

/// A declared relationship as a field: reached by its mapping, or by the key
/// it names, under the name the declaration gives it.
pub open spec fn declared_field(
    names: NameOverrides,
    cache: SchemaCache,
    table: Table,
    name: Seq<char>,
) -> Option<(Seq<char>, RelationshipField)> {
    match names.declared_on(table.schema@, table.name@) {
        None => None,
        Some(list) => match named(list@, name) {
            None => None,
            Some(entry) => match (entry.mapped, entry.using) {
                (Some(field), _) => Some((field.name@, field)),
                (None, Some(key)) => match keyed_from(catalogued(cache, table), 0, key@) {
                    Some(field) => Some((entry.name@, field)),
                    None => None,
                },
                (None, None) => None,
            },
        },
    }
}

/// The name given to the first key from the `i`th on that has one.
pub open spec fn given_from(keys: Seq<String>, i: nat, names: NameOverrides, table: Table) -> Option<
    Seq<char>,
>
    decreases keys.len() - i,
{
    if i >= keys.len() {
        None
    } else {
        match names.relationship_name(table.schema@, table.name@, keys[i as int]@) {
            Some(given) => Some(given),
            None => given_from(keys, i + 1, names, table),
        }
    }
}

/// The name a relationship of the catalogue goes by.
pub open spec fn catalogue_name(found: CatalogueRelationship, names: NameOverrides, table: Table) -> Seq<
    char,
> {
    match given_from(found.keys@, 0, names, table) {
        Some(given) => given,
        None => found.field.name@,
    }
}

/// The first relationship from the `i`th on that goes by a name.
pub open spec fn catalogue_from(
    found: Seq<CatalogueRelationship>,
    i: nat,
    names: NameOverrides,
    table: Table,
    name: Seq<char>,
) -> Option<(Seq<char>, RelationshipField)>
    decreases found.len() - i,
{
    if i >= found.len() {
        None
    } else if catalogue_name(found[i as int], names, table) == name {
        Some((name, found[i as int].field))
    } else {
        catalogue_from(found, i + 1, names, table, name)
    }
}

/// A relationship under the name it is followed by.
pub struct Followed<'a> {
    pub name: String,
    pub field: &'a RelationshipField,
}

/// What a lookup of a relationship found.
pub open spec fn followed(o: Option<Followed<'_>>) -> Option<(Seq<char>, RelationshipField)> {
    match o {
        Some(f) => Some((f.name@, *f.field)),
        None => None,
    }
}

fn found_in<'a>(cache: &'a SchemaCache, table: &Table) -> (r: Option<&'a Vec<CatalogueRelationship>>)
    ensures
        (match r {
            Some(v) => v@,
            None => Seq::empty(),
        }) == catalogued(*cache, *table),
{
    match find_qualified(&cache.relationships, &table.schema, &table.name) {
        Some(entry) => Some(&entry.found),
        None => None,
    }
}

fn keyed_field<'a>(found: &'a Vec<CatalogueRelationship>, key: &str) -> (r: Option<
    &'a RelationshipField,
>)
    ensures
        deref_opt(r) == keyed_from(found@, 0, key@),
{
    let mut i: usize = 0;
    while i < found.len()
        invariant
            i <= found.len(),
            keyed_from(found@, 0, key@) == keyed_from(found@, i as nat, key@),
        decreases found.len() - i,
    {
        if contains_text(&found[i].keys, key) {
            return Some(&found[i].field);
        }
        i += 1;
    }
    None
}

fn given_name<'a>(keys: &Vec<String>, names: &'a NameOverrides, table: &Table) -> (r: Option<&'a str>)
    ensures
        str_opt(r) == given_from(keys@, 0, *names, *table),
{
    let mut i: usize = 0;
    while i < keys.len()
        invariant
            i <= keys.len(),
            given_from(keys@, 0, *names, *table) == given_from(keys@, i as nat, *names, *table),
        decreases keys.len() - i,
    {
        if let Some(given) = names.relationship(&table.schema, &table.name, &keys[i]) {
            return Some(given);
        }
        i += 1;
    }
    None
}

fn declared_relationship<'a>(
    names: &'a NameOverrides,
    cache: &'a SchemaCache,
    table: &Table,
    name: &str,
) -> (r: Option<Followed<'a>>)
    ensures
        followed(r) == declared_field(*names, *cache, *table, name@),
{
    let list: &'a Vec<DeclaredRelationship> = match names.declared_relationships(
        &table.schema,
        &table.name,
    ) {
        Some(list) => list,
        None => return None,
    };
    let entry = match find_named(list, name) {
        Some(entry) => entry,
        None => return None,
    };
    if let Some(field) = &entry.mapped {
        return Some(Followed { name: field.name.clone(), field });
    }
    match &entry.using {
        Some(key) => match found_in(cache, table) {
            Some(found) => match keyed_field(found, key) {
                Some(field) => Some(Followed { name: entry.name.clone(), field }),
                None => None,
            },
            None => None,
        },
        None => None,
    }
}

fn catalogue_relationship<'a>(
    names: &'a NameOverrides,
    cache: &'a SchemaCache,
    table: &Table,
    name: &str,
) -> (r: Option<Followed<'a>>)
    ensures
        followed(r) == catalogue_from(catalogued(*cache, *table), 0, *names, *table, name@),
{
    let found = match found_in(cache, table) {
        Some(found) => found,
        None => return None,
    };
    let mut i: usize = 0;
    while i < found.len()
        invariant
            i <= found.len(),
            catalogued(*cache, *table) == found@,
            catalogue_from(found@, 0, *names, *table, name@) == catalogue_from(
                found@,
                i as nat,
                *names,
                *table,
                name@,
            ),
        decreases found.len() - i,
    {
        let goes_by: &str = match given_name(&found[i].keys, names, table) {
            Some(given) => given,
            None => found[i].field.name.as_str(),
        };
        if same(goes_by, name) {
            return Some(Followed { name: owned(name), field: &found[i].field });
        }
        i += 1;
    }
    None
}

impl<'a> WhereScope<'a> {
    /// A scope over a table addressed by its qualified name.
    pub fn table(
        schema: &str,
        table: &str,
        typename: &str,
        names: &'a NameOverrides,
        words: &'a Vocabulary,
    ) -> (r: WhereScope<'a>)
        ensures
            r@ == ScopeV::over(schema@, table@, typename@, *names, *words),
    {
        WhereScope {
            qualified: QualifiedIdentifier::new(schema, table),
            sql_ref: escape_ident2(schema, table),
            row_ref: escape_ident(table),
            typename: owned(typename),
            root_ref: escape_ident2(schema, table),
            root_qualified: QualifiedIdentifier::new(schema, table),
            names,
            words,
            resolution: None,
            caller: None,
        }
    }

    /// The same table, referred to by an alias rather than by its name.
    ///
    /// A bare table name in `RETURNING` is read as a column first; the alias
    /// is a name no column has.
    pub fn under_alias(self, alias: &str) -> (r: WhereScope<'a>)
        ensures
            r@ == self@.renamed(alias@),
    {
        let root_ref = if same(&self.root_ref, &self.sql_ref) {
            escape_ident(alias)
        } else {
            self.root_ref
        };
        WhereScope {
            qualified: self.qualified,
            sql_ref: escape_ident(alias),
            row_ref: escape_ident(alias),
            typename: self.typename,
            root_ref,
            root_qualified: self.root_qualified,
            names: self.names,
            words: self.words,
            resolution: self.resolution,
            caller: self.caller,
        }
    }

    /// The same, able to follow relationships.
    pub fn with_resolution(
        self,
        cache: &'a SchemaCache,
        relationships: &'a Vec<TypeRelationships>,
    ) -> (r: WhereScope<'a>)
        ensures
            r@ == (ScopeV { resolution: Some((*cache, *relationships)), ..self@ }),
    {
        WhereScope {
            qualified: self.qualified,
            sql_ref: self.sql_ref,
            row_ref: self.row_ref,
            typename: self.typename,
            root_ref: self.root_ref,
            root_qualified: self.root_qualified,
            names: self.names,
            words: self.words,
            resolution: Some(WhereResolution { cache, relationships }),
            caller: self.caller,
        }
    }

    /// A scope over an aliased table, able to follow relationships.
    pub fn for_alias(
        schema: &str,
        table: &str,
        alias: &str,
        typename: &str,
        cache: &'a SchemaCache,
        relationships: &'a Vec<TypeRelationships>,
        names: &'a NameOverrides,
        words: &'a Vocabulary,
    ) -> (r: WhereScope<'a>)
        ensures
            r@ == ScopeV::over_alias(
                schema@,
                table@,
                alias@,
                typename@,
                *cache,
                *relationships,
                *names,
                *words,
            ),
    {
        WhereScope {
            qualified: QualifiedIdentifier::new(schema, table),
            sql_ref: escape_ident(alias),
            row_ref: escape_ident(alias),
            typename: owned(typename),
            root_ref: escape_ident(alias),
            root_qualified: QualifiedIdentifier::new(schema, table),
            names,
            words,
            resolution: Some(WhereResolution { cache, relationships }),
            caller: None,
        }
    }

    /// A scope over the other table of a relationship, under an alias. The
    /// child's own names and types decide how a comparison there is written;
    /// the root and the caller are carried across.
    pub fn aliased(
        schema: &str,
        table: &str,
        alias: &str,
        typename: &str,
        from: &WhereScope<'a>,
    ) -> (r: WhereScope<'a>)
        ensures
            r@ == from@.entering(schema@, table@, alias@, typename@),
    {
        WhereScope {
            qualified: QualifiedIdentifier::new(schema, table),
            sql_ref: escape_ident(alias),
            row_ref: escape_ident(alias),
            typename: owned(typename),
            root_ref: from.root_ref.clone(),
            root_qualified: from.root_qualified.copy(),
            names: from.names,
            words: from.words,
            resolution: from.resolution,
            caller: from.caller,
        }
    }

    /// Narrow what this scope's predicates may reach to one caller.
    pub fn for_caller(self, caller: &'a Caller) -> (r: WhereScope<'a>)
        ensures
            r@ == (ScopeV { caller: Some(*caller), ..self@ }),
    {
        WhereScope {
            qualified: self.qualified,
            sql_ref: self.sql_ref,
            row_ref: self.row_ref,
            typename: self.typename,
            root_ref: self.root_ref,
            root_qualified: self.root_qualified,
            names: self.names,
            words: self.words,
            resolution: self.resolution,
            caller: Some(caller),
        }
    }

    /// The same scope with no caller: what a permission's own predicate is
    /// evaluated as. The root moves here, since `$` in a permission names the
    /// table the permission is written on.
    pub fn as_system(&self) -> (r: WhereScope<'a>)
        ensures
            r@ == self@.system(),
    {
        WhereScope {
            qualified: self.qualified.copy(),
            sql_ref: self.sql_ref.clone(),
            row_ref: self.row_ref.clone(),
            typename: self.typename.clone(),
            root_ref: self.sql_ref.clone(),
            root_qualified: self.qualified.copy(),
            names: self.names,
            words: self.words,
            resolution: self.resolution,
            caller: None,
        }
    }

    fn table_of(&self) -> (r: Option<&'a Table>)
        ensures
            deref_opt(r) == self@.table(),
    {
        match self.resolution {
            Some(resolution) => resolution.cache.get_table(
                &self.qualified.schema,
                &self.qualified.name,
            ),
            None => None,
        }
    }

    /// The column behind a field name.
    pub fn column_name<'n>(&'n self, name: &'n str) -> (r: &'n str)
        ensures
            r@ == self@.column_name(name@),
    {
        column_for(self.names, &self.qualified.schema, &self.qualified.name, name)
    }

    /// What a field name refers to, as SQL: a column of this table, or the
    /// call that produces a computed field.
    pub fn column(&self, name: &str) -> (r: String)
        ensures
            r@ == self@.column(name@),
    {
        let column = self.column_name(name);
        let plain = cat3(&self.sql_ref, ".", &escape_ident(column));
        match self.table_of() {
            Some(table) => if table.get_column(column).is_some() {
                plain
            } else {
                match computed_for(self.names, table, name) {
                    Some(definition) => computed_call(
                        definition,
                        &cat2(&self.row_ref, ".*"),
                        &self.row_ref,
                    ),
                    None => plain,
                }
            },
            None => plain,
        }
    }

    /// The PostgreSQL type of one of this table's columns, where it can be
    /// found.
    pub fn column_type(&self, name: &str) -> (r: Option<String>)
        ensures
            text_opt(r) == self@.column_type(name@),
    {
        match self.table_of() {
            Some(table) => match table.get_column(self.column_name(name)) {
                Some(column) => Some(column.nominal_type.clone()),
                None => None,
            },
            None => None,
        }
    }

    /// The other side of a column-to-column comparison, as SQL.
    ///
    /// A bare name is a column of this table. `["$", "name"]` is a column of
    /// the table the predicate began at. Nothing else is accepted: read
    /// wrongly, a longer path would widen a permission.
    pub fn other_column(&self, operand: &Json, op: &str) -> (r: Result<String, Error>)
        ensures
            (match r {
                Ok(sql) => Ok(sql@),
                Err(e) => Err(e@),
            }) == self@.other_column(operand@, op@),
    {
        match operand {
            Json::String(name) => {
                Ok(cat3(&self.sql_ref, ".", &escape_ident(self.column_name(name))))
            },
            Json::Array(path) => {
                proof {
                    lemma_array_view(*path);
                }
                if path.len() == 1 {
                    assert(jsons(path@)[0] == path@[0]@);
                    if let Json::String(name) = &path[0] {
                        return Ok(
                            cat3(&self.sql_ref, ".", &escape_ident(self.column_name(name))),
                        );
                    }
                } else if path.len() == 2 {
                    assert(jsons(path@)[0] == path@[0]@);
                    assert(jsons(path@)[1] == path@[1]@);
                    if let Json::String(root) = &path[0] {
                        if let Json::String(name) = &path[1] {
                            if same(root, "$") {
                                let column = column_for(
                                    self.names,
                                    &self.root_qualified.schema,
                                    &self.root_qualified.name,
                                    name,
                                );
                                return Ok(cat3(&self.root_ref, ".", &escape_ident(column)));
                            }
                        }
                    }
                }
                Err(
                    Error::new(
                        cat3(
                            "the \"",
                            op,
                            "\" comparison takes the name of a column, or [\"$\", \"a column\"]",
                        ),
                    ),
                )
            },
            _ => Err(
                Error::new(
                    cat3(
                        "the \"",
                        op,
                        "\" comparison takes the name of a column, written as a string",
                    ),
                ),
            ),
        }
    }

    /// The relationship a predicate is following, where there is one.
    ///
    /// The type's own relationships come first, which are those the role can
    /// read. A permission may name one it cannot: that one is taken from what
    /// the metadata declares, or from the catalogue.
    pub fn relationship(&self, name: &str) -> (r: Option<Followed<'a>>)
        ensures
            followed(r) == self@.relationship(name@),
    {
        let resolution = match self.resolution {
            Some(resolution) => resolution,
            None => return None,
        };
        if let Some(fields) = relationships_of(resolution.relationships, &self.typename) {
            if let Some(field) = find_named(fields, name) {
                return Some(Followed { name: field.name.clone(), field });
            }
        }
        let table = match resolution.cache.get_table(&self.qualified.schema, &self.qualified.name) {
            Some(table) => table,
            None => return None,
        };
        match declared_relationship(self.names, resolution.cache, table, name) {
            Some(found) => Some(found),
            None => catalogue_relationship(self.names, resolution.cache, table, name),
        }
    }
}

} // verus!
