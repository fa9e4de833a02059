//! What holds of every read.

use crate::catalog::{fields_of, RelationshipField};
use crate::condition::CursorV;
use crate::embed::{embedded, embedded_field, embedded_from, EmbedV, Selected};
use crate::lookup::named;
use crate::ordering::{aggregated_list, distinct_clause, leads_with};
use crate::read::{read_limit, ReadField};
use crate::role::{Caller, Verb};
use crate::scope::Sources;
use crate::text::split_text;
use vstd::prelude::*;

verus! {

/// A read returns no more rows than was asked for, than the server is
/// configured for, or than the permission allows, whichever of these there
/// are; and a read by key at most one.
pub proof fn law_reads_are_bounded(
    field: ReadField,
    caller: Caller,
    requested: Option<i64>,
)
    ensures
        ({
            let limit = read_limit(field, caller, requested);
            let granted = caller.ruled(
                field.schema_name@,
                field.table_name@,
                Verb::Select,
            ).limit;
            if field.is_by_pk {
                limit == Some(1i64)
            } else {
                &&& requested is Some ==> limit is Some && limit->0 <= requested->0
                &&& field.max_rows is Some ==> limit is Some && limit->0 <= field.max_rows->0
                &&& granted is Some ==> limit is Some && limit->0 <= granted->0
                &&& limit is Some ==> limit == requested || limit == field.max_rows || limit
                    == granted
            }
        }),
{
}

/// Whether a selected field asks for a relationship, or for the aggregate of
/// one.
pub open spec fn asks_related(available: Seq<RelationshipField>, field: Selected) -> bool {
    aggregated_list(available, field.name@) is Some || named(available, field.name@) is Some
}

/// The fields from the `i`th on that ask for a relationship.
pub open spec fn related_from(
    available: Seq<RelationshipField>,
    fields: Seq<Selected>,
    i: nat,
) -> Seq<Seq<char>>
    decreases fields.len() - i,
{
    if i >= fields.len() {
        Seq::empty()
    } else if asks_related(available, fields[i as int]) {
        seq![fields[i as int].name@] + related_from(available, fields, i + 1)
    } else {
        related_from(available, fields, i + 1)
    }
}

/// The fields that embeds answer.
pub open spec fn answered_fields(embeds: Seq<EmbedV>) -> Seq<Seq<char>> {
    embeds.map_values(|e: EmbedV| e.field)
}

proof fn lemma_named<T: crate::lookup::Named>(s: Seq<T>, name: Seq<char>)
    ensures
        named(s, name) is Some ==> (named(s, name)->0).called() == name,
    decreases s.len(),
{
    if s.len() > 0 && s[0].called() != name {
        lemma_named(s.drop_first(), name);
    }
}

proof fn lemma_embedded_from(
    src: Sources<'_>,
    caller: Caller,
    available: Seq<RelationshipField>,
    parent_alias: Seq<char>,
    fields: Seq<Selected>,
    i: nat,
    max_rows: Option<i64>,
    found: Seq<EmbedV>,
    at: CursorV,
)
    ensures
        ({
            let r = embedded_from(
                src,
                caller,
                available,
                parent_alias,
                fields,
                i,
                max_rows,
                found,
                at,
            );
            r is Ok ==> answered_fields((r->Ok_0).0) == answered_fields(found) + related_from(
                available,
                fields,
                i,
            )
        }),
    decreases fields.len() - i,
{
    if i >= fields.len() {
        assert(answered_fields(found) + related_from(available, fields, i) =~= answered_fields(
            found,
        ));
    } else {
        let field = fields[i as int];
        lemma_named(available, field.name@);
        match embedded_field(src, caller, available, parent_alias, field, max_rows, at) {
            Err(_) => {},
            Ok((None, mid)) => {
                assert(!asks_related(available, field));
                lemma_embedded_from(
                    src,
                    caller,
                    available,
                    parent_alias,
                    fields,
                    i + 1,
                    max_rows,
                    found,
                    mid,
                );
            },
            Ok((Some(embed), mid)) => {
                assert(asks_related(available, field));
                assert(embed.field == field.name@);
                lemma_embedded_from(
                    src,
                    caller,
                    available,
                    parent_alias,
                    fields,
                    i + 1,
                    max_rows,
                    found.push(embed),
                    mid,
                );
                let rest = related_from(available, fields, i + 1);
                assert(answered_fields(found.push(embed)) + rest =~= answered_fields(found) + (seq![
                    field.name@,
                ] + rest));
            },
        }
    }
}

/// Every relationship that a selection asks for is embedded, once and in the
/// order it was asked for, and nothing else is. So where nothing was embedded
/// nothing is left to embed.
pub proof fn law_every_relationship_is_embedded(
    src: Sources<'_>,
    caller: Caller,
    typename: Seq<char>,
    parent_alias: Seq<char>,
    fields: Seq<Selected>,
    max_rows: Option<i64>,
    at: CursorV,
)
    ensures
        ({
            let r = embedded(src, caller, typename, parent_alias, fields, max_rows, at);
            r is Ok ==> answered_fields((r->Ok_0).0) == (match fields_of(
                src.relationships@,
                typename,
            ) {
                Some(available) => related_from(available@, fields, 0),
                None => Seq::empty(),
            })
        }),
{
    match fields_of(src.relationships@, typename) {
        Some(available) => {
            lemma_embedded_from(
                src,
                caller,
                available@,
                parent_alias,
                fields,
                0,
                max_rows,
                Seq::empty(),
                at,
            );
            assert(answered_fields(Seq::<EmbedV>::empty()) + related_from(available@, fields, 0)
                =~= related_from(available@, fields, 0));
        },
        None => {
            assert(answered_fields(Seq::<EmbedV>::empty()) =~= Seq::empty());
        },
    }
}

/// A read that keeps one row of each group has an ordering that decides which:
/// one that was written begins with the columns the groups are by, or the read
/// is refused, and where none was written those columns become it.
pub proof fn law_distinct_rows_are_ordered(
    distinct_on: Seq<Seq<char>>,
    written: Option<Seq<char>>,
)
    requires
        distinct_on.len() > 0,
    ensures
        ({
            let r = distinct_clause(distinct_on, written);
            &&& r is Ok ==> (r->Ok_0).1 is Some
            &&& r is Ok && written is Some ==> (r->Ok_0).1 == written && leads_with(
                split_text(written->0, ", "@),
                distinct_on,
            )
            &&& written is None ==> r is Ok && (r->Ok_0).1 == Some(
                crate::text::joined(distinct_on, ", "@),
            )
        }),
{
}

} // verus!
