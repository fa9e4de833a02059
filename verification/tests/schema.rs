use async_graphql::dynamic::{
    Enum, EnumItem, Field, FieldFuture, FieldValue, InputObject, InputValue, Object, Scalar,
    Schema, SchemaError, Subscription, SubscriptionField, SubscriptionFieldFuture, TypeRef,
};
use async_graphql::Value;
use postrust_graphql::catalog::{
    Cardinality, Column, EmbedPlan, NameOverrides, Relationship, RelationshipField,
    RelationshipKind, Table, TableNames, TypeRelationships, UniqueConstraint,
};
use postrust_graphql::generated::{
    leaf_scalar_name, AggregateFunction, FederationEntity, FunctionField, GeneratedSchema,
    GraphQLField, GraphQLType, MutationField, PgType, QueryField, TableObjectType,
};
use postrust_graphql::live::watched_channels;
use postrust_graphql::mutate::MutationType;
use postrust_graphql::object_types::create_object_type;
use postrust_graphql::roots::{create_mutation_type, create_query_type, create_subscription_type};
use postrust_graphql::schema::{build_dynamic_schema, SchemaDef};
use postrust_graphql::schema_def::{Argument, FieldDef, ObjectDef};
use postrust_graphql::state::{build_ungranted_schema, GraphQLState, RoleView};

// ============================================================================
// A database, and what a role may see of it
// ============================================================================

fn column(name: &str, data_type: &str, nominal_type: &str, position: i32) -> Column {
    Column {
        name: name.into(),
        description: None,
        nullable: false,
        data_type: data_type.into(),
        nominal_type: nominal_type.into(),
        max_len: None,
        default: None,
        enum_values: vec![],
        is_pk: name == "id",
        position,
        always_generated: false,
        domain_type: None,
    }
}

fn create_test_table(name: &str) -> Table {
    Table {
        schema: "public".into(),
        name: name.into(),
        description: None,
        is_view: false,
        insertable: true,
        updatable: true,
        deletable: true,
        pk_cols: vec!["id".into()],
        unique_constraints: Vec::new(),
        columns: vec![
            column("id", "integer", "int4", 1),
            column("name", "text", "text", 2),
        ],
        computed_columns: vec![],
        is_partitioned: false,
    }
}

/// What a schema is generated from, and how.
struct Config {
    tables: Vec<Table>,
    prefix: Option<&'static str>,
    federation: bool,
    shared: bool,
    id_type: GraphQLType,
    readable: Vec<&'static str>,
    counted: bool,
    read: bool,
    written: bool,
    updated: bool,
    posts: bool,
    functions: bool,
}

fn everything() -> Config {
    Config {
        tables: vec![create_test_table("users")],
        prefix: None,
        federation: false,
        shared: false,
        id_type: GraphQLType::Int,
        readable: vec!["id", "name"],
        counted: true,
        read: true,
        written: true,
        updated: true,
        posts: false,
        functions: false,
    }
}

fn no_names() -> NameOverrides {
    NameOverrides { tables: vec![] }
}

fn field(name: &str, graphql_type: GraphQLType) -> GraphQLField {
    let incrementable = matches!(graphql_type, GraphQLType::Int);
    GraphQLField {
        name: name.into(),
        type_string: format!("{}!", leaf_scalar_name(&graphql_type)),
        graphql_type,
        description: None,
        is_pk: name == "id",
        incrementable,
        arguments: vec![],
    }
}

fn id_type(config: &Config) -> GraphQLType {
    match config.id_type {
        GraphQLType::Id => GraphQLType::Id,
        _ => GraphQLType::Int,
    }
}

fn fields(config: &Config, names: &[&'static str]) -> Vec<GraphQLField> {
    names
        .iter()
        .map(|name| match *name {
            "id" => field("id", id_type(config)),
            other => field(other, GraphQLType::String),
        })
        .collect()
}

fn generate(config: &Config) -> GeneratedSchema {
    let mut generated = GeneratedSchema {
        object_types: vec![],
        relationship_fields: vec![],
        query_fields: vec![],
        mutation_fields: vec![],
        function_fields: vec![],
        enum_types: vec![],
        federation_entities: vec![],
        enable_federation: config.federation,
        pg_types: vec![
            PgType { name: "integer".into(), graphql: GraphQLType::Int },
            PgType { name: "text".into(), graphql: GraphQLType::String },
        ],
        filter_scalars: vec![],
    };
    let prefixed = |name: &str| match config.prefix {
        Some(prefix) => format!("{prefix}_{name}"),
        None => name.to_string(),
    };
    for table in &config.tables {
        let local = prefixed(&table.name);
        let shared = config.federation && config.shared && table.name == "users";
        let name = if shared { table.name.clone() } else { local.clone() };
        let readable = if config.read { config.readable.clone() } else { vec![] };
        let aggregates = if readable.is_empty() {
            vec![]
        } else {
            vec![
                AggregateFunction {
                    name: "avg".into(),
                    columns: vec![("id".into(), "Float".into())],
                },
                AggregateFunction {
                    name: "max".into(),
                    columns: vec![("id".into(), "Int".into()), ("name".into(), "String".into())],
                },
            ]
        };
        generated.object_types.push(TableObjectType {
            name: name.clone(),
            local_name: local.clone(),
            description: None,
            table: copy_table(table),
            fields: fields(config, &readable),
            writable_fields: fields(config, &["id", "name"]),
            insert_columns: None,
            update_columns: None,
            insertable: config.written,
            updatable: config.updated,
            aggregates,
        });
        if config.federation {
            generated.federation_entities.push(FederationEntity {
                typename: name.clone(),
                key_fields: vec!["id".into()],
                shared,
            });
        }
        let query = |suffix: &str, by_key: bool, returns: String| QueryField {
            name: format!("{local}{suffix}"),
            schema_name: "public".into(),
            table_name: table.name.clone(),
            typename: name.clone(),
            local_typename: local.clone(),
            is_by_pk: by_key,
            pk_columns: vec![("id".into(), "integer".into())],
            return_type: returns,
            description: None,
            rows: !readable.is_empty(),
            aggregates: config.counted && !by_key,
            aggregate_name: None,
            aggregate_description: None,
        };
        if config.read || config.counted {
            generated.query_fields.push(query("", false, format!("[{name}!]!")));
        }
        if !readable.is_empty() {
            generated.query_fields.push(query("_by_pk", true, name.clone()));
        }
        let mutation = |verb: &str, suffix: &str, kind: MutationType, returns: String| {
            MutationField {
                name: prefixed(&format!("{verb}_{}{suffix}", table.name)),
                schema_name: "public".into(),
                table_name: table.name.clone(),
                typename: name.clone(),
                local_typename: local.clone(),
                mutation_type: kind,
                pk_columns: vec![("id".into(), "integer".into())],
                return_type: returns,
                description: None,
            }
        };
        let response = format!("{local}_mutation_response");
        if config.written {
            generated.mutation_fields.push(mutation(
                "insert",
                "",
                MutationType::Insert,
                response.clone(),
            ));
            if !readable.is_empty() {
                generated.mutation_fields.push(mutation(
                    "insert",
                    "_one",
                    MutationType::InsertOne,
                    name.clone(),
                ));
            }
        }
        if config.updated {
            for (verb, suffix, kind, returns) in [
                ("update", "", MutationType::Update, response.clone()),
                ("update", "_by_pk", MutationType::UpdateByPk, name.clone()),
                ("update", "_many", MutationType::UpdateMany, format!("[{response}]")),
                ("delete", "", MutationType::Delete, response.clone()),
                ("delete", "_by_pk", MutationType::DeleteByPk, name.clone()),
            ] {
                generated.mutation_fields.push(mutation(verb, suffix, kind, returns));
            }
        }
    }
    if config.posts {
        let users = generated.object_types[0].name.clone();
        generated.relationship_fields.push(TypeRelationships {
            typename: users,
            fields: vec![posts_of_users(&prefixed("posts"))],
        });
    }
    if config.functions {
        let object = &generated.object_types[0];
        generated.function_fields.push(FunctionField {
            name: "add_to_score".into(),
            schema_name: "public".into(),
            function_name: "add_to_score".into(),
            arguments: vec![],
            session_argument: None,
            returns_schema: "public".into(),
            returns_table: "users".into(),
            returns: object.name.clone(),
            local_returns: object.local_name.clone(),
            description: None,
            volatile: true,
        });
    }
    generated
}

fn copy_table(table: &Table) -> Table {
    let mut copied = create_test_table(&table.name);
    for (to, from) in copied.columns.iter_mut().zip(&table.columns) {
        to.always_generated = from.always_generated;
    }
    for unique in &table.unique_constraints {
        copied.unique_constraints.push(UniqueConstraint {
            name: unique.name.clone(),
            columns: unique.columns.clone(),
        });
    }
    copied
}

fn posts_of_users(target: &str) -> RelationshipField {
    RelationshipField {
        name: "posts".into(),
        target_type: target.into(),
        target_local_name: target.into(),
        description: None,
        is_list: true,
        arguments: vec![],
        relationship: Relationship {
            kind: RelationshipKind::ForeignKey(Cardinality::OneToMany {
                columns: vec![("id".into(), "user_id".into())],
            }),
            plan: Ok(EmbedPlan {
                foreign_schema: "public".into(),
                foreign_table: "posts".into(),
                columns: vec![("id".into(), "user_id".into())],
                local_column: "id".into(),
                junction: false,
                function: None,
                row_argument: None,
            }),
        },
    }
}

// ============================================================================
// Registering a schema with async-graphql
// ============================================================================

fn type_ref(ty: &postrust_graphql::schema_def::TypeRef) -> TypeRef {
    match (ty.list, ty.item_required, ty.required) {
        (false, _, false) => TypeRef::named(ty.name.as_str()),
        (false, _, true) => TypeRef::named_nn(ty.name.as_str()),
        (true, false, false) => TypeRef::named_list(ty.name.as_str()),
        (true, true, false) => TypeRef::named_nn_list(ty.name.as_str()),
        (true, false, true) => TypeRef::named_list_nn(ty.name.as_str()),
        (true, true, true) => TypeRef::named_nn_list_nn(ty.name.as_str()),
    }
}

fn input_value(argument: &Argument) -> InputValue {
    let value = InputValue::new(argument.name.as_str(), type_ref(&argument.ty));
    if argument.empty_default {
        value.default_value(Value::List(vec![]))
    } else {
        value
    }
}

fn registered_field(def: &FieldDef) -> Field {
    let mut field = Field::new(def.name.as_str(), type_ref(&def.ty), |_| {
        FieldFuture::new(async { Ok(None::<FieldValue>) })
    });
    for argument in &def.arguments {
        field = field.argument(input_value(argument));
    }
    if def.shareable {
        field = field.shareable();
    }
    field
}

fn registered_object(def: &ObjectDef) -> Object {
    let mut object = Object::new(def.name.as_str());
    if let Some(key) = &def.key {
        object = object.key(key.as_str());
    }
    for field in &def.fields {
        object = object.field(registered_field(field));
    }
    object
}

fn register(def: &SchemaDef, generated: &GeneratedSchema) -> Result<Schema, SchemaError> {
    let mut builder = Schema::build(
        &def.query.name,
        def.mutation.as_ref().map(|root| root.name.as_str()),
        def.subscription.as_ref().map(|root| root.name.as_str()),
    );
    builder = builder.register(registered_object(&def.query));
    if let Some(root) = &def.mutation {
        builder = builder.register(registered_object(root));
    }
    if let Some(root) = &def.subscription {
        let mut subscription = Subscription::new(root.name.as_str());
        for def in &root.fields {
            let mut field = SubscriptionField::new(def.name.as_str(), type_ref(&def.ty), |_| {
                SubscriptionFieldFuture::new(async {
                    Ok(futures::stream::empty::<Result<FieldValue, async_graphql::Error>>())
                })
            });
            for argument in &def.arguments {
                field = field.argument(input_value(argument));
            }
            subscription = subscription.field(field);
        }
        builder = builder.register(subscription);
    }
    for object in &def.objects {
        builder = builder.register(registered_object(object));
    }
    for input in &def.inputs {
        let mut object = InputObject::new(input.name.as_str());
        for argument in &input.fields {
            object = object.field(input_value(argument));
        }
        builder = builder.register(object);
    }
    for def in &def.enums {
        let mut items = Enum::new(def.name.as_str());
        for item in &def.items {
            items = items.item(EnumItem::new(item.name.as_str()));
        }
        builder = builder.register(items);
    }
    for scalar in &def.scalars {
        builder = builder.register(Scalar::new(scalar.as_str()));
    }
    // The filters and orderings that the host registers beside the schema.
    let mut leaves: Vec<String> = vec!["Boolean".into(), "Int".into()];
    for object in &generated.object_types {
        let base = object.local_name.as_str();
        let named = |suffix: &str| format!("{base}_{suffix}");
        let mut filter = InputObject::new(named("bool_exp"))
            .field(InputValue::new("_and", TypeRef::named_nn_list(named("bool_exp"))))
            .field(InputValue::new("_or", TypeRef::named_nn_list(named("bool_exp"))))
            .field(InputValue::new("_not", TypeRef::named(named("bool_exp"))));
        for field in &object.fields {
            let leaf = leaf_scalar_name(&field.graphql_type);
            filter = filter.field(InputValue::new(
                field.name.as_str(),
                TypeRef::named(format!("{leaf}_comparison_exp")),
            ));
            if !leaves.contains(&leaf) {
                leaves.push(leaf);
            }
        }
        builder = builder.register(filter);
        if !object.fields.is_empty() {
            let mut order = InputObject::new(named("order_by"));
            let mut columns = Enum::new(named("select_column"));
            for field in &object.fields {
                order = order.field(InputValue::new(
                    field.name.as_str(),
                    TypeRef::named("order_by"),
                ));
                columns = columns.item(EnumItem::new(field.name.as_str()));
            }
            builder = builder.register(order).register(columns);
        }
    }
    for leaf in leaves {
        builder = builder.register(
            InputObject::new(format!("{leaf}_comparison_exp"))
                .field(InputValue::new("_eq", TypeRef::named(leaf.as_str()))),
        );
    }
    builder = builder.register(Enum::new("order_by").item(EnumItem::new("asc")));
    if def.federated {
        builder = builder
            .enable_federation()
            .entity_resolver(|_| FieldFuture::new(async { Ok(None::<FieldValue>) }));
    }
    builder.finish()
}

fn sdl(config: &Config, names: &NameOverrides) -> String {
    let generated = generate(config);
    let def = build_dynamic_schema(&generated, names, false);
    register(&def, &generated).expect("the schema builds").sdl()
}

fn federation_sdl(config: &Config) -> String {
    let generated = generate(config);
    let def = build_dynamic_schema(&generated, &no_names(), false);
    register(&def, &generated)
        .expect("the schema builds")
        .sdl_with_options(async_graphql::SDLExportOptions::new().federation())
}

fn block(sdl: &str, header: &str) -> String {
    sdl.split(header)
        .nth(1)
        .and_then(|rest| rest.split('}').next())
        .unwrap_or_else(|| panic!("{} is registered:\n{}", header, sdl))
        .to_string()
}

// ============================================================================
// Schemas
// ============================================================================

#[test]
fn test_build_dynamic_schema() {
    let generated = generate(&everything());
    let def = build_dynamic_schema(&generated, &no_names(), false);
    let result = register(&def, &generated);
    assert!(result.is_ok(), "Schema build failed: {:?}", result.err());
}

#[test]
fn a_column_type_override_reaches_fields_and_key_arguments() {
    let names = NameOverrides {
        tables: vec![TableNames {
            schema: "public".into(),
            table: "users".into(),
            base_name: None,
            columns: vec![],
            computed: vec![],
            relationships: vec![],
            column_types: vec![("id".into(), "ID".into())],
            declared: None,
        }],
    };
    let sdl = sdl(&Config { id_type: GraphQLType::Id, ..everything() }, &names);

    let input_body = |name: &str| {
        sdl.split_once(&format!("input {name} {{"))
            .and_then(|(_, rest)| rest.split_once('}'))
            .map(|(body, _)| body.to_string())
            .unwrap_or_else(|| panic!("missing input {name}:\n{sdl}"))
    };

    assert!(sdl.contains("id: ID!"), "object and input fields:\n{sdl}");
    assert!(
        sdl.contains("users_by_pk(id: ID!): users"),
        "query key argument:\n{sdl}"
    );
    assert!(
        sdl.contains("delete_users_by_pk(id: ID!): users"),
        "delete key argument:\n{sdl}"
    );
    assert!(
        input_body("users_pk_columns_input").contains("id: ID!"),
        "update key input:\n{sdl}"
    );
    assert!(
        input_body("users_bool_exp").contains("id: ID_comparison_exp"),
        "comparison input:\n{sdl}"
    );
    assert!(
        input_body("users_insert_input").contains("id: ID"),
        "write input:\n{sdl}"
    );
}

#[test]
fn a_type_prefix_names_the_complete_dynamic_schema() {
    let sdl = sdl(&Config { prefix: Some("test"), ..everything() }, &no_names());

    assert!(sdl.contains("type test_users "), "object type:\n{sdl}");
    assert!(sdl.contains("test_users("), "query root:\n{sdl}");
    assert!(sdl.contains("test_users_by_pk("), "by-PK root:\n{sdl}");
    assert!(sdl.contains("test_users_bool_exp"), "derived input:\n{sdl}");
    assert!(
        sdl.contains("test_users_aggregate"),
        "aggregate type:\n{sdl}"
    );
    assert!(sdl.contains("test_insert_users("), "mutation root:\n{sdl}");
}

#[test]
fn federation_is_absent_by_default() {
    let sdl = sdl(&everything(), &no_names());

    assert!(!sdl.contains("_Service"), "service type:\n{sdl}");
    assert!(!sdl.contains("_service"), "service field:\n{sdl}");
    assert!(!sdl.contains("@key"), "federation key:\n{sdl}");
}

#[test]
fn federation_metadata_is_byte_for_byte_inert_when_disabled() {
    let baseline = sdl(&Config { prefix: Some("test"), ..everything() }, &no_names());
    let with_disabled_federation_metadata = sdl(
        &Config {
            prefix: Some("test"),
            federation: false,
            shared: true,
            ..everything()
        },
        &no_names(),
    );

    assert_eq!(with_disabled_federation_metadata, baseline);
    assert!(
        with_disabled_federation_metadata.contains("type test_users "),
        "prefixed object type remains when federation is disabled:\n{with_disabled_federation_metadata}"
    );
    assert!(
        !with_disabled_federation_metadata.contains("_Service"),
        "service type:\n{with_disabled_federation_metadata}"
    );
    assert!(
        !with_disabled_federation_metadata.contains("@key"),
        "federation key:\n{with_disabled_federation_metadata}"
    );
}

#[test]
fn entities_change_nothing_but_keys_and_marks() {
    let config = |federation: bool| Config {
        tables: vec![create_test_table("users"), create_test_table("posts")],
        prefix: Some("test"),
        federation,
        shared: true,
        posts: true,
        ..everything()
    };
    let plain = build_dynamic_schema(&generate(&config(false)), &no_names(), true);
    assert!(!plain.federated);
    assert_eq!(plain.query.name, "query_root");
    assert_eq!(plain.mutation.as_ref().unwrap().name, "mutation_root");
    assert_eq!(plain.subscription.as_ref().unwrap().name, "subscription_root");
    for object in &plain.objects {
        assert!(object.key.is_none(), "{}", object.name);
        assert!(object.fields.iter().all(|field| !field.shareable), "{}", object.name);
    }
    let marked = build_dynamic_schema(&generate(&config(true)), &no_names(), true);
    assert!(marked.federated);
    assert!(marked.objects.iter().any(|object| object.key.is_some()));
    let mut without = generate(&config(true));
    without.federation_entities.clear();
    let unmarked = build_dynamic_schema(&without, &no_names(), true);
    assert!(unmarked.objects.iter().all(|object| object.key.is_none()));
    let names = |objects: &Vec<ObjectDef>| -> Vec<(String, Vec<String>)> {
        let fields =
            |object: &ObjectDef| object.fields.iter().map(|field| field.name.clone()).collect();
        objects.iter().map(|object| (object.name.clone(), fields(object))).collect()
    };
    assert_eq!(names(&unmarked.objects), names(&marked.objects));
}

#[test]
fn a_rows_fields_are_in_name_order() {
    let generated = generate(&Config {
        tables: vec![create_test_table("users"), create_test_table("posts")],
        posts: true,
        ..everything()
    });
    let def = build_dynamic_schema(&generated, &no_names(), false);
    let users = def.objects.iter().find(|object| object.name == "users").unwrap();
    let names: Vec<&str> = users.fields.iter().map(|field| field.name.as_str()).collect();
    assert_eq!(names, vec!["id", "name", "posts", "posts_aggregate"]);
}

#[test]
fn shared_entities_make_relationship_fields_shareable() {
    let with_posts = |shared: bool| {
        federation_sdl(&Config {
            tables: vec![create_test_table("users"), create_test_table("posts")],
            prefix: Some("test"),
            federation: true,
            shared,
            posts: true,
            ..everything()
        })
    };

    let shared = with_posts(true);
    assert!(
        shared.contains("): [test_posts!]! @shareable"),
        "shared relationship field:\n{shared}"
    );
    assert!(
        shared.contains("): test_posts_aggregate! @shareable"),
        "shared relationship aggregate field:\n{shared}"
    );

    let not_shared = with_posts(false);
    assert!(
        not_shared.contains("): [test_posts!]!"),
        "non-shared relationship field:\n{not_shared}"
    );
    assert!(
        !not_shared.contains("): [test_posts!]! @shareable"),
        "non-shared relationship field must not be shareable:\n{not_shared}"
    );
    assert!(
        not_shared.contains("): test_posts_aggregate!"),
        "non-shared relationship aggregate field:\n{not_shared}"
    );
    assert!(
        !not_shared.contains("): test_posts_aggregate! @shareable"),
        "non-shared relationship aggregate must not be shareable:\n{not_shared}"
    );
}

#[test]
fn federation_exposes_service_sdl_and_entity_keys() {
    let config = Config {
        tables: vec![create_test_table("users"), create_test_table("posts")],
        prefix: Some("test"),
        federation: true,
        shared: true,
        ..everything()
    };
    let generated = generate(&config);
    let def = build_dynamic_schema(&generated, &no_names(), false);
    let schema = register(&def, &generated).expect("a federated schema should build");
    let sdl = schema.sdl();
    let federation_sdl =
        schema.sdl_with_options(async_graphql::SDLExportOptions::new().federation());

    assert!(sdl.contains("_Service"), "service type:\n{sdl}");
    assert!(sdl.contains("_service"), "service field:\n{sdl}");
    assert!(
        federation_sdl.contains("type users @key(fields: \"id\")"),
        "users key:\n{federation_sdl}"
    );
    assert!(
        federation_sdl.contains("@shareable"),
        "shared field directive:\n{federation_sdl}"
    );
    assert!(sdl.contains("type users "), "shared object type:\n{sdl}");
    assert!(
        !sdl.contains("type test_users "),
        "prefixed shared object type:\n{sdl}"
    );
    assert!(sdl.contains("test_users("), "query root:\n{sdl}");
    assert!(sdl.contains("test_users_by_pk("), "by-PK root:\n{sdl}");
    assert!(sdl.contains("test_users_bool_exp"), "derived input:\n{sdl}");
    assert!(
        !sdl.contains("input users_bool_exp "),
        "unprefixed derived input:\n{sdl}"
    );
    assert!(
        sdl.contains("test_users_aggregate"),
        "aggregate type:\n{sdl}"
    );
    assert!(
        !sdl.contains("type users_aggregate "),
        "unprefixed aggregate type:\n{sdl}"
    );
    assert!(
        sdl.contains("test_users_mutation_response"),
        "mutation response type:\n{sdl}"
    );
    assert!(
        !sdl.contains("type users_mutation_response "),
        "unprefixed mutation response type:\n{sdl}"
    );
    assert!(
        sdl.contains("type test_posts {"),
        "non-shared object type remains prefixed:\n{sdl}"
    );
    assert!(
        !sdl.contains("type posts {"),
        "non-shared object type must not become unprefixed:\n{sdl}"
    );
    assert!(sdl.contains("test_posts("), "prefixed posts root:\n{sdl}");
    assert!(
        sdl.contains("test_posts_bool_exp"),
        "prefixed posts bool_exp:\n{sdl}"
    );

    let response = futures::executor::block_on(schema.execute("{ _service { sdl } }"));
    assert!(
        response.errors.is_empty(),
        "service query errors: {:?}",
        response.errors
    );
    let service = response.data.into_json().expect("service response JSON");
    let service_sdl = service
        .get("_service")
        .and_then(|value| value.get("sdl"))
        .and_then(serde_json::Value::as_str)
        .expect("service SDL string");
    assert!(
        service_sdl.contains("type Query"),
        "federation root type:\n{service_sdl}"
    );
    assert!(
        service_sdl.contains("test_users("),
        "query fields are on the federation root:\n{service_sdl}"
    );
    assert!(
        service_sdl.contains("test_posts("),
        "non-shared query fields are on the federation root:\n{service_sdl}"
    );
    assert!(
        !service_sdl.contains("type query_root"),
        "a query root under another name is an ordinary object:\n{service_sdl}"
    );
    assert!(
        service_sdl.contains("type users @key(fields: \"id\")"),
        "{service_sdl}"
    );
    assert!(
        service_sdl.contains("type test_posts @key(fields: \"id\")"),
        "{service_sdl}"
    );
}

#[test]
fn a_table_a_role_may_count_and_not_read_has_a_count_and_no_rows() {
    let config = Config {
        readable: vec![],
        written: false,
        updated: false,
        ..everything()
    };
    let sdl = sdl(&config, &no_names());

    assert!(
        sdl.contains("users_aggregate"),
        "the count is there:\n{}",
        sdl
    );
    assert!(sdl.contains("count: Int!"), "and it is a count:\n{}", sdl);
    assert!(!sdl.contains("type users "), "no row type:\n{}", sdl);
    assert!(
        !sdl.contains("nodes"),
        "and no rows beside the numbers:\n{}",
        sdl
    );
    assert!(
        !sdl.contains("users_select_column"),
        "no column enum to order by or count over:\n{}",
        sdl
    );
    assert!(!sdl.contains("users_max_fields"), "no max:\n{}", sdl);
}

#[test]
fn a_table_a_role_may_only_write_gets_the_write_and_no_type() {
    let config = Config {
        read: false,
        counted: false,
        updated: false,
        ..everything()
    };
    let sdl = sdl(&config, &no_names());

    assert!(
        sdl.contains("insert_users("),
        "the write is there:\n{}",
        sdl
    );
    assert!(
        sdl.contains("users_insert_input"),
        "and its input:\n{}",
        sdl
    );
    assert!(!sdl.contains("type users "), "no row type:\n{}", sdl);
    assert!(!sdl.contains("insert_users_one"), "no insert_one:\n{}", sdl);
    assert!(
        !sdl.contains("returning"),
        "and nothing to return:\n{}",
        sdl
    );
    assert!(
        sdl.contains("users_mutation_response"),
        "the count is still answered:\n{}",
        sdl
    );
    assert!(
        !sdl.contains("_mutation_response_mutation_response"),
        "and no type is named twice over:\n{}",
        sdl
    );
}

#[test]
fn a_mutation_function_needs_the_role_to_be_named() {
    let sdl_for = |functions: bool| {
        sdl(
            &Config {
                written: false,
                updated: false,
                functions,
                ..everything()
            },
            &no_names(),
        )
    };

    let without = sdl_for(false);
    assert!(
        !without.contains("add_to_score"),
        "not granted, so not there:\n{}",
        without
    );
    assert!(
        !without.contains("mutation: mutation_root"),
        "and no mutation root at all:\n{}",
        without
    );

    let with = sdl_for(true);
    assert!(
        with.contains("add_to_score"),
        "named by a function permission, so it is:\n{}",
        with
    );
}

fn nothing() -> GeneratedSchema {
    generate(&Config { tables: vec![], ..everything() })
}

#[test]
fn a_role_the_document_never_names_is_granted_nothing() {
    let nobody = nothing();
    let empty = build_ungranted_schema(true, &nobody, &no_names()).expect("it builds");
    let sdl = register(&empty, &nobody).expect("it registers").sdl();
    assert!(
        sdl.contains("no_queries_available"),
        "nothing to read:\n{}",
        sdl
    );
    assert!(!sdl.contains("type users "), "and no table:\n{}", sdl);
    assert!(build_ungranted_schema(false, &nobody, &no_names()).is_none());
}

#[test]
fn a_column_a_role_may_set_without_seeing_is_in_the_input_alone() {
    let config = Config {
        readable: vec!["id"],
        updated: false,
        ..everything()
    };
    let generated = generate(&config);
    let object = &generated.object_types[0];
    assert_eq!(
        object
            .fields
            .iter()
            .map(|f| f.name.as_str())
            .collect::<Vec<_>>(),
        vec!["id"],
        "the type shows what may be read"
    );
    assert!(
        object.writable_fields.iter().any(|f| f.name == "name"),
        "and the input keeps what may be written"
    );

    let sdl = sdl(&config, &no_names());
    let input = sdl
        .split("input users_insert_input")
        .nth(1)
        .and_then(|rest| rest.split('}').next())
        .expect("the insert input is registered");
    assert!(input.contains("name:"), "settable without being readable");
}

#[test]
fn a_generated_column_is_readable_and_not_writable() {
    let mut table = create_test_table("users");
    table.columns[0].always_generated = true;
    let sdl = sdl(&Config { tables: vec![table], ..everything() }, &no_names());

    assert!(
        block(&sdl, "type users ").contains("id:"),
        "still readable:\n{}",
        sdl
    );
    for header in ["input users_insert_input", "input users_set_input"] {
        assert!(
            !block(&sdl, header).contains("id:"),
            "{} may not name it:\n{}",
            header,
            block(&sdl, header)
        );
    }
    assert!(
        !sdl.contains("users_inc_input"),
        "and nothing is left to increment:\n{}",
        sdl
    );
    assert!(
        block(&sdl, "input users_insert_input").contains("name:"),
        "and the rest of the table is untouched",
    );
}

#[test]
fn test_create_object_type() {
    let generated = generate(&everything());
    let object = create_object_type(&generated.object_types[0], &vec![], None);
    assert_eq!(object.name, "users");
    let names: Vec<&str> = object.fields.iter().map(|f| f.name.as_str()).collect();
    assert_eq!(names, vec!["id", "name"]);
}

#[test]
fn test_create_query_type() {
    let query = create_query_type(&generate(&everything()), "query_root", &no_names());
    let names: Vec<&str> = query.fields.iter().map(|f| f.name.as_str()).collect();
    assert_eq!(names, vec!["users", "users_aggregate", "users_by_pk"]);
}

#[test]
fn test_create_mutation_type() {
    let mutation = create_mutation_type(&generate(&everything()), "mutation_root", &no_names());
    let names: Vec<&str> = mutation.fields.iter().map(|f| f.name.as_str()).collect();
    assert_eq!(
        names,
        vec![
            "delete_users",
            "delete_users_by_pk",
            "insert_users",
            "insert_users_one",
            "update_users",
            "update_users_by_pk",
            "update_users_many",
        ]
    );
}

#[test]
fn a_schema_carrying_the_boolean_expressions_still_builds() {
    let sdl = sdl(&everything(), &no_names());
    assert!(
        sdl.contains("_bool_exp"),
        "no boolean expressions in:\n{}",
        sdl
    );
    assert!(sdl.contains("_and"), "no _and in the generated expressions");
}

#[test]
fn test_build_schema_with_subscriptions() {
    let generated = generate(&everything());
    let def = build_dynamic_schema(&generated, &no_names(), true);
    let root = def.subscription.as_ref().expect("a subscription root");
    assert!(!root.fields.is_empty(), "Should have subscription fields");
    let result = register(&def, &generated);
    assert!(result.is_ok(), "Schema with subscriptions should build");
}

#[test]
fn test_create_subscription_type() {
    let generated = generate(&everything());
    let watched = create_subscription_type(&generated, "subscription_root", &no_names());
    let read = create_query_type(&generated, "query_root", &no_names());
    assert_eq!(watched.name, "subscription_root");
    let names = |object: &ObjectDef| -> Vec<String> {
        object.fields.iter().map(|f| f.name.clone()).collect()
    };
    assert_eq!(names(&watched), names(&read));
}

#[test]
fn an_upsert_is_offered_where_there_is_a_constraint_to_name() {
    let mut table = create_test_table("users");
    table.unique_constraints.push(UniqueConstraint {
        name: "users_pkey".into(),
        columns: vec!["id".into()],
    });
    let with = sdl(&Config { tables: vec![table], ..everything() }, &no_names());
    assert!(with.contains("input users_on_conflict"), "{with}");
    assert!(block(&with, "enum users_constraint").contains("users_pkey"));
    let without = sdl(&everything(), &no_names());
    assert!(!without.contains("on_conflict"), "{without}");
}

#[test]
fn a_relationship_named_like_a_column_gives_way() {
    let generated = generate(&everything());
    let mut clashing = posts_of_users("posts");
    clashing.name = "name".into();
    let object = create_object_type(
        &generated.object_types[0],
        &vec![clashing, posts_of_users("posts")],
        None,
    );
    let names: Vec<&str> = object.fields.iter().map(|f| f.name.as_str()).collect();
    assert_eq!(names, vec!["id", "name", "posts", "posts_aggregate"]);
}

#[test]
fn each_role_is_answered_from_its_own_schema() {
    let names = no_names();
    let generated = generate(&everything());
    let reader = Config { written: false, updated: false, ..everything() };
    let roles = vec![
        RoleView { role: "admin".into(), generated: nothing(), backend: None },
        RoleView {
            role: "reader".into(),
            generated: generate(&reader),
            backend: Some(generate(&everything())),
        },
    ];
    let mut state = GraphQLState::new(&generated, &names, true, &roles, &nothing(), false);
    let fields = |role: Option<&str>, backend: bool| -> Vec<String> {
        let schema = state.schema_for(role, backend).expect("a schema");
        schema.query.fields.iter().map(|f| f.name.clone()).collect()
    };
    assert_eq!(state.role_schemas.len(), 2);
    assert_eq!(fields(None, false), vec!["users", "users_aggregate", "users_by_pk"]);
    assert_eq!(fields(Some("admin"), false).len(), 3);
    assert!(state.schema_for(Some("reader"), false).unwrap().mutation.is_none());
    assert!(state.schema_for(Some("reader"), true).unwrap().mutation.is_some());
    assert_eq!(fields(Some("merchant"), true), vec!["no_queries_available"]);

    state.rebuild(&nothing(), &names, &vec![], &nothing(), true);
    assert!(state.permissions);
    assert!(state.schema.subscription.is_some());
    assert_eq!(
        state.schema_for(Some("reader"), false).unwrap().query.fields[0].name,
        "no_queries_available"
    );
}

#[test]
fn each_table_is_watched_on_a_channel_of_its_own() {
    let generated = generate(&everything());
    assert_eq!(watched_channels(&generated, true), vec!["postrust_public_users"]);
    assert!(watched_channels(&generated, false).is_empty());
}
