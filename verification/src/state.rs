//! Which schema answers for which role.

use crate::catalog::NameOverrides;
use crate::generated::GeneratedSchema;
use crate::schema::{build_dynamic_schema, schema_of, SchemaDef, SchemaDefV};
use crate::text::{same, str_opt};
use vstd::prelude::*;

verus! {

/// The role that permissions do not apply to.
pub const ADMIN_ROLE: &'static str = "admin";

/// What one role may see, and what it may see as a backend where that is more.
pub struct RoleView {
    pub role: String,
    pub generated: GeneratedSchema,
    pub backend: Option<GeneratedSchema>,
}

/// One role's schema, as a backend or not.
pub struct RoleSchema {
    pub role: String,
    pub backend: bool,
    pub schema: SchemaDef,
}

/// What a [`RoleSchema`] holds.
#[verifier::ext_equal]
pub struct RoleSchemaV {
    pub role: Seq<char>,
    pub backend: bool,
    pub schema: SchemaDefV,
}

impl View for RoleSchema {
    type V = RoleSchemaV;

    open spec fn view(&self) -> RoleSchemaV {
        RoleSchemaV { role: self.role@, backend: self.backend, schema: self.schema@ }
    }
}

/// What several hold.
pub open spec fn role_schemas_of(v: Seq<RoleSchema>) -> Seq<RoleSchemaV> {
    v.map_values(|s: RoleSchema| s@)
}

/// The schemas of the roles from the `i`th on, after those in `found`. The
/// administrator has none: it is the caller the permissions do not apply to. A
/// role has a second schema only where a backend may name more.
pub open spec fn schemas_from(
    roles: Seq<RoleView>,
    i: nat,
    names: NameOverrides,
    found: Seq<RoleSchemaV>,
) -> Seq<RoleSchemaV>
    decreases roles.len() - i,
{
    if i >= roles.len() {
        found
    } else {
        let view = roles[i as int];
        let first = RoleSchemaV {
            role: view.role@,
            backend: false,
            schema: schema_of(view.generated, names, false),
        };
        schemas_from(
            roles,
            i + 1,
            names,
            if view.role@ == ADMIN_ROLE@ {
                found
            } else {
                match view.backend {
                    None => found.push(first),
                    Some(generated) => found.push(first).push(
                        RoleSchemaV {
                            role: view.role@,
                            backend: true,
                            schema: schema_of(generated, names, false),
                        },
                    ),
                }
            },
        )
    }
}

fn push_schema(found: &mut Vec<RoleSchema>, schema: RoleSchema)
    ensures
        role_schemas_of(final(found)@) == role_schemas_of(old(found)@).push(schema@),
{
    proof {
        assert(role_schemas_of(found@.push(schema)) =~= role_schemas_of(found@).push(schema@));
    }
    found.push(schema);
}

/// Build one schema for each role the permissions name; none where there are
/// no permissions.
pub fn build_role_schemas(permissions: bool, roles: &Vec<RoleView>, names: &NameOverrides) -> (r: Vec<
    RoleSchema,
>)
    ensures
        role_schemas_of(r@) == (if permissions {
            schemas_from(roles@, 0, *names, Seq::empty())
        } else {
            Seq::empty()
        }),
{
    let mut found: Vec<RoleSchema> = Vec::new();
    assert(role_schemas_of(found@) =~= Seq::<RoleSchemaV>::empty());
    if !permissions {
        return found;
    }
    let mut i: usize = 0;
    while i < roles.len()
        invariant
            i <= roles.len(),
            schemas_from(roles@, 0, *names, Seq::empty()) == schemas_from(
                roles@,
                i as nat,
                *names,
                role_schemas_of(found@),
            ),
        decreases roles.len() - i,
    {
        let view = &roles[i];
        if !same(&view.role, ADMIN_ROLE) {
            push_schema(
                &mut found,
                RoleSchema {
                    role: view.role.clone(),
                    backend: false,
                    schema: build_dynamic_schema(&view.generated, names, false),
                },
            );
            if let Some(generated) = &view.backend {
                push_schema(
                    &mut found,
                    RoleSchema {
                        role: view.role.clone(),
                        backend: true,
                        schema: build_dynamic_schema(generated, names, false),
                    },
                );
            }
        }
        i += 1;
    }
    found
}

/// The schema of a role that the permissions never name, where there are any:
/// built of what is granted to nobody.
pub fn build_ungranted_schema(
    permissions: bool,
    nobody: &GeneratedSchema,
    names: &NameOverrides,
) -> (r: Option<SchemaDef>)
    ensures
        crate::state::schema_opt(r) == (if permissions {
            Some(schema_of(*nobody, *names, false))
        } else {
            None
        }),
{
    if permissions {
        Some(build_dynamic_schema(nobody, names, false))
    } else {
        None
    }
}

/// What an optional schema holds.
pub open spec fn schema_opt(o: Option<SchemaDef>) -> Option<SchemaDefV> {
    match o {
        Some(schema) => Some(schema@),
        None => None,
    }
}

/// What an optional borrowed schema holds.
pub open spec fn schema_ref(o: Option<&SchemaDef>) -> Option<SchemaDefV> {
    match o {
        Some(schema) => Some(schema@),
        None => None,
    }
}

/// The schemas that requests are answered from.
pub struct GraphQLState {
    /// Whether there are permissions at all.
    pub permissions: bool,
    /// The unrestricted schema: what an administrator is answered from, and
    /// everyone where there are no permissions.
    pub schema: SchemaDef,
    /// One schema for each role the permissions name, by whether the caller
    /// asked for what only a backend may name.
    pub role_schemas: Vec<RoleSchema>,
    /// What a role the permissions never name is answered from. To be
    /// unrecognised is to be granted nothing, not to be refused.
    pub ungranted_schema: Option<SchemaDef>,
}

/// The schema of a role from the `i`th on, as a backend or not.
pub open spec fn role_schema(s: Seq<RoleSchemaV>, i: nat, role: Seq<char>, backend: bool) -> Option<
    SchemaDefV,
>
    decreases s.len() - i,
{
    if i >= s.len() {
        None
    } else if s[i as int].role == role && s[i as int].backend == backend {
        Some(s[i as int].schema)
    } else {
        role_schema(s, i + 1, role, backend)
    }
}

/// The first that is there.
pub open spec fn first_of<T>(a: Option<T>, b: Option<T>) -> Option<T> {
    match a {
        Some(_) => a,
        None => b,
    }
}

impl GraphQLState {
    /// The schema that answers for a caller speaking as a role.
    pub open spec fn answers(self, role: Option<Seq<char>>, backend: bool) -> Option<SchemaDefV> {
        if !self.permissions || role is None || role == Some(ADMIN_ROLE@) {
            Some(self.schema@)
        } else {
            let schemas = role_schemas_of(self.role_schemas@);
            first_of(
                role_schema(schemas, 0, role->0, backend),
                first_of(
                    role_schema(schemas, 0, role->0, false),
                    schema_opt(self.ungranted_schema),
                ),
            )
        }
    }

    /// The state of what everyone, each role and nobody may see.
    pub fn new(
        generated: &GeneratedSchema,
        names: &NameOverrides,
        permissions: bool,
        roles: &Vec<RoleView>,
        nobody: &GeneratedSchema,
        subscriptions: bool,
    ) -> (r: GraphQLState)
        ensures
            r.permissions == permissions,
            r.schema@ == schema_of(*generated, *names, subscriptions),
            role_schemas_of(r.role_schemas@) == (if permissions {
                schemas_from(roles@, 0, *names, Seq::empty())
            } else {
                Seq::empty()
            }),
            schema_opt(r.ungranted_schema) == (if permissions {
                Some(schema_of(*nobody, *names, false))
            } else {
                None
            }),
    {
        GraphQLState {
            permissions,
            schema: build_dynamic_schema(generated, names, subscriptions),
            role_schemas: build_role_schemas(permissions, roles, names),
            ungranted_schema: build_ungranted_schema(permissions, nobody, names),
        }
    }

    /// Builds the schemas anew, after the database or what is granted of it has
    /// changed. Whether there are permissions stays as it was.
    pub fn rebuild(
        &mut self,
        generated: &GeneratedSchema,
        names: &NameOverrides,
        roles: &Vec<RoleView>,
        nobody: &GeneratedSchema,
        subscriptions: bool,
    )
        ensures
            final(self).permissions == old(self).permissions,
            final(self).schema@ == schema_of(*generated, *names, subscriptions),
            role_schemas_of(final(self).role_schemas@) == (if old(self).permissions {
                schemas_from(roles@, 0, *names, Seq::empty())
            } else {
                Seq::empty()
            }),
            schema_opt(final(self).ungranted_schema) == (if old(self).permissions {
                Some(schema_of(*nobody, *names, false))
            } else {
                None
            }),
    {
        self.role_schemas = build_role_schemas(self.permissions, roles, names);
        self.ungranted_schema = build_ungranted_schema(self.permissions, nobody, names);
        self.schema = build_dynamic_schema(generated, names, subscriptions);
    }

    fn find_role(&self, role: &str, backend: bool) -> (r: Option<&SchemaDef>)
        ensures
            schema_ref(r) == role_schema(role_schemas_of(self.role_schemas@), 0, role@, backend),
    {
        let ghost all = role_schemas_of(self.role_schemas@);
        let mut i: usize = 0;
        while i < self.role_schemas.len()
            invariant
                i <= self.role_schemas.len(),
                all == role_schemas_of(self.role_schemas@),
                role_schema(all, 0, role@, backend) == role_schema(all, i as nat, role@, backend),
            decreases self.role_schemas.len() - i,
        {
            assert(all[i as int] == self.role_schemas@[i as int]@);
            let found = &self.role_schemas[i];
            if same(&found.role, role) && found.backend == backend {
                return Some(&found.schema);
            }
            i += 1;
        }
        None
    }

    /// Which schema answers for a caller speaking as this role.
    ///
    /// A role with nothing only a backend may name has one schema, and it
    /// answers a backend caller too. `None` only where the schema of what is
    /// granted to nobody is not there.
    pub fn schema_for(&self, role: Option<&str>, backend: bool) -> (r: Option<&SchemaDef>)
        ensures
            schema_ref(r) == self.answers(str_opt(role), backend),
    {
        if !self.permissions {
            return Some(&self.schema);
        }
        let role = match role {
            None => return Some(&self.schema),
            Some(role) => role,
        };
        if same(role, ADMIN_ROLE) {
            return Some(&self.schema);
        }
        match self.find_role(role, backend) {
            Some(schema) => Some(schema),
            None => match self.find_role(role, false) {
                Some(schema) => Some(schema),
                None => match &self.ungranted_schema {
                    Some(schema) => Some(schema),
                    None => None,
                },
            },
        }
    }
}

/// A state that was built answers everyone: no caller is left without a
/// schema.
pub proof fn law_everyone_is_answered(state: GraphQLState, role: Option<Seq<char>>, backend: bool)
    requires
        state.permissions ==> state.ungranted_schema is Some,
    ensures
        state.answers(role, backend) is Some,
{
}

/// Without permissions everyone is answered from the unrestricted schema, and
/// with them the administrator still is.
pub proof fn law_unrestricted_callers(state: GraphQLState, role: Option<Seq<char>>, backend: bool)
    requires
        !state.permissions || role is None || role == Some(ADMIN_ROLE@),
    ensures
        state.answers(role, backend) == Some(state.schema@),
{
}

/// A role that the permissions never name is answered from what is granted to
/// nobody.
pub proof fn law_unnamed_role_is_granted_nothing(state: GraphQLState, role: Seq<char>, backend: bool)
    requires
        state.permissions,
        role != ADMIN_ROLE@,
        forall|i: int|
            0 <= i < state.role_schemas@.len() ==> (#[trigger] state.role_schemas@[i]).role@
                != role,
    ensures
        state.answers(Some(role), backend) == schema_opt(state.ungranted_schema),
{
    let schemas = role_schemas_of(state.role_schemas@);
    assert forall|i: int| 0 <= i < schemas.len() implies (#[trigger] schemas[i]).role != role by {
        assert(schemas[i] == state.role_schemas@[i]@);
    }
    lemma_no_role(schemas, 0, role, backend);
    lemma_no_role(schemas, 0, role, false);
}

proof fn lemma_no_role(s: Seq<RoleSchemaV>, i: nat, role: Seq<char>, backend: bool)
    requires
        forall|k: int| 0 <= k < s.len() ==> (#[trigger] s[k]).role != role,
    ensures
        role_schema(s, i, role, backend) is None,
    decreases s.len() - i,
{
    if i < s.len() {
        lemma_no_role(s, i + 1, role, backend);
    }
}

} // verus!
