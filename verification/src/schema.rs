//! The schemas of the lakehouse's tables: their columns, as the columnar
//! engine and as the table log describe them, and their partition columns.

use crate::text::names_of;
use vstd::prelude::*;

verus! {

/// The table of user accounts.
pub const TABLE_USERS: &'static str = "users";

/// The table of authentication sessions.
pub const TABLE_SESSIONS: &'static str = "sessions";

/// The append-only audit log.
pub const TABLE_AUDIT_LOG: &'static str = "audit_log";

/// The table of granular user actions.
pub const TABLE_USER_ACTIONS: &'static str = "user_actions";

/// The type of a column in the columnar in-memory format.
#[derive(Debug, Clone, Copy, PartialEq, Eq, Structural)]
pub enum DataType {
    Utf8,
    Boolean,
    Int64,
    Float64,
}

/// The type of a column as the table log records it.
#[derive(Debug, Clone, Copy, PartialEq, Eq, Structural)]
pub enum PrimitiveType {
    String,
    Boolean,
    Long,
    Double,
}

impl DataType {
    /// The logged type that stands for an in-memory type.
    pub open spec fn spec_primitive(self) -> PrimitiveType {
        match self {
            DataType::Utf8 => PrimitiveType::String,
            DataType::Boolean => PrimitiveType::Boolean,
            DataType::Int64 => PrimitiveType::Long,
            DataType::Float64 => PrimitiveType::Double,
        }
    }

    /// The logged type that stands for this in-memory type.
    pub fn primitive(&self) -> (p: PrimitiveType)
        ensures
            p == self.spec_primitive(),
    {
        match self {
            DataType::Utf8 => PrimitiveType::String,
            DataType::Boolean => PrimitiveType::Boolean,
            DataType::Int64 => PrimitiveType::Long,
            DataType::Float64 => PrimitiveType::Double,
        }
    }
}

/// One column of a row batch.
#[derive(Debug, Clone)]
pub struct Field {
    pub name: String,
    pub data_type: DataType,
    pub nullable: bool,
}

/// The mathematical content of a [`Field`].
pub struct FieldView {
    pub name: Seq<char>,
    pub data_type: DataType,
    pub nullable: bool,
}

impl View for Field {
    type V = FieldView;

    open spec fn view(&self) -> FieldView {
        FieldView { name: self.name@, data_type: self.data_type, nullable: self.nullable }
    }
}

impl Field {
    /// A column of the given name, type and nullability.
    pub fn new(name: &str, data_type: DataType, nullable: bool) -> (field: Field)
        ensures
            field@ == (FieldView { name: name@, data_type, nullable }),
    {
        Field { name: String::from_str(name), data_type, nullable }
    }
}

/// One column of a table as the table log records it.
#[derive(Debug, Clone)]
pub struct StructField {
    pub name: String,
    pub data_type: PrimitiveType,
    pub nullable: bool,
}

/// The mathematical content of a [`StructField`].
pub struct StructFieldView {
    pub name: Seq<char>,
    pub data_type: PrimitiveType,
    pub nullable: bool,
}

impl View for StructField {
    type V = StructFieldView;

    open spec fn view(&self) -> StructFieldView {
        StructFieldView { name: self.name@, data_type: self.data_type, nullable: self.nullable }
    }
}

/// The views of a list of fields, in order.
pub open spec fn fields_view(fields: Seq<Field>) -> Seq<FieldView> {
    fields.map_values(|f: Field| f@)
}

/// The views of a list of logged fields, in order.
pub open spec fn struct_fields_view(fields: Seq<StructField>) -> Seq<StructFieldView> {
    fields.map_values(|f: StructField| f@)
}

/// The logged column that stands for an in-memory column: the same name
/// and nullability, and the logged form of its type.
pub open spec fn logged_field(f: FieldView) -> StructFieldView {
    StructFieldView { name: f.name, data_type: f.data_type.spec_primitive(), nullable: f.nullable }
}

/// The logged columns of a schema, column for column.
pub open spec fn logged_fields(fields: Seq<FieldView>) -> Seq<StructFieldView> {
    fields.map_values(|f: FieldView| logged_field(f))
}

/// Describes a schema's columns as the table log records them.
pub fn delta_fields_of(schema: &Vec<Field>) -> (fields: Vec<StructField>)
    ensures
        struct_fields_view(fields@) == logged_fields(fields_view(schema@)),
{
    let mut fields: Vec<StructField> = Vec::new();
    let mut i: usize = 0;
    while i < schema.len()
        invariant
            i <= schema.len(),
            fields@.len() == i,
            forall|j: int| 0 <= j < i ==> fields@[j]@ == logged_field(schema@[j]@),
        decreases schema.len() - i,
    {
        let f = &schema[i];
        fields.push(
            StructField {
                name: f.name.clone(),
                data_type: f.data_type.primitive(),
                nullable: f.nullable,
            },
        );
        i += 1;
    }
    assert(struct_fields_view(fields@) =~= logged_fields(fields_view(schema@)));
    fields
}

impl PrimitiveType {
    /// The name of a logged type.
    pub open spec fn spec_name(self) -> Seq<char> {
        match self {
            PrimitiveType::String => "string"@,
            PrimitiveType::Boolean => "boolean"@,
            PrimitiveType::Long => "long"@,
            PrimitiveType::Double => "double"@,
        }
    }

    /// The name of this logged type.
    pub fn as_str(&self) -> (s: &'static str)
        ensures
            s@ == self.spec_name(),
    {
        match self {
            PrimitiveType::String => "string",
            PrimitiveType::Boolean => "boolean",
            PrimitiveType::Long => "long",
            PrimitiveType::Double => "double",
        }
    }
}

/// One column in a schema's description: its name, a colon, its type,
/// and a question mark where it is nullable.
pub open spec fn column_text(f: StructFieldView) -> Seq<char> {
    f.name + ":"@ + f.data_type.spec_name() + if f.nullable {
        "?"@
    } else {
        Seq::empty()
    }
}

/// A schema's description: its columns, each but the first behind a
/// comma.
pub open spec fn schema_text(fields: Seq<StructFieldView>) -> Seq<char>
    decreases fields.len(),
{
    if fields.len() == 0 {
        Seq::empty()
    } else if fields.len() == 1 {
        column_text(fields.last())
    } else {
        schema_text(fields.drop_last()) + ","@ + column_text(fields.last())
    }
}

/// Describes a schema in one line, for error messages.
pub fn describe_schema(fields: &Vec<StructField>) -> (text: String)
    ensures
        text@ == schema_text(struct_fields_view(fields@)),
{
    let mut text = String::new();
    let mut i: usize = 0;
    assert(struct_fields_view(fields@).subrange(0, 0) =~= Seq::empty());
    while i < fields.len()
        invariant
            i <= fields.len(),
            text@ == schema_text(struct_fields_view(fields@).subrange(0, i as int)),
        decreases fields.len() - i,
    {
        let ghost prefix = struct_fields_view(fields@).subrange(0, i as int + 1);
        assert(prefix.drop_last() =~= struct_fields_view(fields@).subrange(0, i as int));
        assert(prefix.last() == fields@[i as int]@);
        if i > 0 {
            text.append(",");
        }
        text.append(fields[i].name.as_str());
        text.append(":");
        text.append(fields[i].data_type.as_str());
        if fields[i].nullable {
            text.append("?");
        }
        assert(text@ =~= schema_text(prefix));
        i += 1;
    }
    assert(struct_fields_view(fields@).subrange(0, fields@.len() as int) =~= struct_fields_view(
        fields@,
    ));
    text
}

/// Whether two logged schemas hold the same columns, one for one.
pub fn struct_fields_match(a: &Vec<StructField>, b: &Vec<StructField>) -> (same: bool)
    ensures
        same == (struct_fields_view(a@) == struct_fields_view(b@)),
{
    if a.len() != b.len() {
        assert(struct_fields_view(a@).len() != struct_fields_view(b@).len());
        return false;
    }
    let mut i: usize = 0;
    while i < a.len()
        invariant
            i <= a.len(),
            a.len() == b.len(),
            forall|j: int| 0 <= j < i ==> a@[j]@ == b@[j]@,
        decreases a.len() - i,
    {
        let x = &a[i];
        let y = &b[i];
        if !(crate::text::str_eq(x.name.as_str(), y.name.as_str()) && x.data_type == y.data_type
            && x.nullable == y.nullable) {
            assert(struct_fields_view(a@)[i as int] != struct_fields_view(b@)[i as int]);
            return false;
        }
        i += 1;
    }
    assert(struct_fields_view(a@) =~= struct_fields_view(b@));
    true
}

/// Whether a batch's columns match a table's columns one for one, in name,
/// type and nullability.
pub fn schema_matches(table: &Vec<Field>, batch: &Vec<Field>) -> (same: bool)
    ensures
        same == (fields_view(table@) == fields_view(batch@)),
{
    if table.len() != batch.len() {
        assert(fields_view(table@).len() != fields_view(batch@).len());
        return false;
    }
    let mut i: usize = 0;
    while i < table.len()
        invariant
            i <= table.len(),
            table.len() == batch.len(),
            forall|j: int| 0 <= j < i ==> table@[j]@ == batch@[j]@,
        decreases table.len() - i,
    {
        let a = &table[i];
        let b = &batch[i];
        if !(crate::text::str_eq(a.name.as_str(), b.name.as_str()) && a.data_type == b.data_type
            && a.nullable == b.nullable) {
            assert(fields_view(table@)[i as int] != fields_view(batch@)[i as int]);
            return false;
        }
        i += 1;
    }
    assert(fields_view(table@) =~= fields_view(batch@));
    true
}

/// The columns of the `users` table (user accounts).
pub open spec fn users_columns() -> Seq<FieldView> {
    seq![
        FieldView { name: "user_id"@, data_type: DataType::Utf8, nullable: false },
        FieldView { name: "username"@, data_type: DataType::Utf8, nullable: false },
        FieldView { name: "email"@, data_type: DataType::Utf8, nullable: false },
        FieldView { name: "password_hash"@, data_type: DataType::Utf8, nullable: false },
        FieldView { name: "role"@, data_type: DataType::Utf8, nullable: false },
        FieldView { name: "subscription_tier"@, data_type: DataType::Utf8, nullable: true },
        FieldView { name: "first_name"@, data_type: DataType::Utf8, nullable: true },
        FieldView { name: "last_name"@, data_type: DataType::Utf8, nullable: true },
        FieldView { name: "is_active"@, data_type: DataType::Boolean, nullable: false },
        FieldView { name: "created_at"@, data_type: DataType::Utf8, nullable: false },
        FieldView { name: "last_login"@, data_type: DataType::Utf8, nullable: true },
        FieldView { name: "preferences_json"@, data_type: DataType::Utf8, nullable: true },
    ]
}

/// The schema of the `users` table for building row batches.
pub fn users_arrow_schema() -> (schema: Vec<Field>)
    ensures
        fields_view(schema@) == users_columns(),
{
    let mut schema: Vec<Field> = Vec::new();
    schema.push(Field::new("user_id", DataType::Utf8, false));
    schema.push(Field::new("username", DataType::Utf8, false));
    schema.push(Field::new("email", DataType::Utf8, false));
    schema.push(Field::new("password_hash", DataType::Utf8, false));
    schema.push(Field::new("role", DataType::Utf8, false));
    schema.push(Field::new("subscription_tier", DataType::Utf8, true));
    schema.push(Field::new("first_name", DataType::Utf8, true));
    schema.push(Field::new("last_name", DataType::Utf8, true));
    schema.push(Field::new("is_active", DataType::Boolean, false));
    schema.push(Field::new("created_at", DataType::Utf8, false));
    schema.push(Field::new("last_login", DataType::Utf8, true));
    schema.push(Field::new("preferences_json", DataType::Utf8, true));
    assert(fields_view(schema@) =~= users_columns());
    schema
}

/// The columns of the `users` table as the table log records them.
pub fn users_delta_fields() -> (fields: Vec<StructField>)
    ensures
        struct_fields_view(fields@) == logged_fields(users_columns()),
{
    delta_fields_of(&users_arrow_schema())
}

/// The partition columns of the `users` table.
pub fn users_partition_columns() -> (columns: Vec<String>)
    ensures
        columns@.len() == 0,
{
    Vec::new()
}

/// The columns of the `sessions` table (authentication sessions).
pub open spec fn sessions_columns() -> Seq<FieldView> {
    seq![
        FieldView { name: "token_hash"@, data_type: DataType::Utf8, nullable: false },
        FieldView { name: "user_id"@, data_type: DataType::Utf8, nullable: false },
        FieldView { name: "username"@, data_type: DataType::Utf8, nullable: false },
        FieldView { name: "role"@, data_type: DataType::Utf8, nullable: false },
        FieldView { name: "created_at"@, data_type: DataType::Utf8, nullable: false },
        FieldView { name: "expires_at"@, data_type: DataType::Utf8, nullable: false },
        FieldView { name: "is_revoked"@, data_type: DataType::Boolean, nullable: false },
    ]
}

/// The schema of the `sessions` table for building row batches.
pub fn sessions_arrow_schema() -> (schema: Vec<Field>)
    ensures
        fields_view(schema@) == sessions_columns(),
{
    let mut schema: Vec<Field> = Vec::new();
    schema.push(Field::new("token_hash", DataType::Utf8, false));
    schema.push(Field::new("user_id", DataType::Utf8, false));
    schema.push(Field::new("username", DataType::Utf8, false));
    schema.push(Field::new("role", DataType::Utf8, false));
    schema.push(Field::new("created_at", DataType::Utf8, false));
    schema.push(Field::new("expires_at", DataType::Utf8, false));
    schema.push(Field::new("is_revoked", DataType::Boolean, false));
    assert(fields_view(schema@) =~= sessions_columns());
    schema
}

/// The columns of the `sessions` table as the table log records them.
pub fn sessions_delta_fields() -> (fields: Vec<StructField>)
    ensures
        struct_fields_view(fields@) == logged_fields(sessions_columns()),
{
    delta_fields_of(&sessions_arrow_schema())
}

/// The partition columns of the `sessions` table.
pub fn sessions_partition_columns() -> (columns: Vec<String>)
    ensures
        columns@.len() == 0,
{
    Vec::new()
}

/// The columns of the `audit_log` table (the append-only audit log).
pub open spec fn audit_log_columns() -> Seq<FieldView> {
    seq![
        FieldView { name: "event_id"@, data_type: DataType::Utf8, nullable: false },
        FieldView { name: "timestamp"@, data_type: DataType::Utf8, nullable: false },
        FieldView { name: "user_id"@, data_type: DataType::Utf8, nullable: false },
        FieldView { name: "action"@, data_type: DataType::Utf8, nullable: false },
        FieldView { name: "resource"@, data_type: DataType::Utf8, nullable: true },
        FieldView { name: "details_json"@, data_type: DataType::Utf8, nullable: true },
        FieldView { name: "ip_address"@, data_type: DataType::Utf8, nullable: true },
        FieldView { name: "user_agent"@, data_type: DataType::Utf8, nullable: true },
        FieldView { name: "date_partition"@, data_type: DataType::Utf8, nullable: false },
    ]
}

/// The schema of the `audit_log` table for building row batches.
pub fn audit_log_arrow_schema() -> (schema: Vec<Field>)
    ensures
        fields_view(schema@) == audit_log_columns(),
{
    let mut schema: Vec<Field> = Vec::new();
    schema.push(Field::new("event_id", DataType::Utf8, false));
    schema.push(Field::new("timestamp", DataType::Utf8, false));
    schema.push(Field::new("user_id", DataType::Utf8, false));
    schema.push(Field::new("action", DataType::Utf8, false));
    schema.push(Field::new("resource", DataType::Utf8, true));
    schema.push(Field::new("details_json", DataType::Utf8, true));
    schema.push(Field::new("ip_address", DataType::Utf8, true));
    schema.push(Field::new("user_agent", DataType::Utf8, true));
    schema.push(Field::new("date_partition", DataType::Utf8, false));
    assert(fields_view(schema@) =~= audit_log_columns());
    schema
}

/// The columns of the `audit_log` table as the table log records them.
pub fn audit_log_delta_fields() -> (fields: Vec<StructField>)
    ensures
        struct_fields_view(fields@) == logged_fields(audit_log_columns()),
{
    delta_fields_of(&audit_log_arrow_schema())
}

/// The partition columns of the `audit_log` table.
pub fn audit_log_partition_columns() -> (columns: Vec<String>)
    ensures
        names_of(columns@) == seq!["date_partition"@],
{
    let mut columns: Vec<String> = Vec::new();
    columns.push(String::from_str("date_partition"));
    assert(names_of(columns@) =~= seq!["date_partition"@]);
    columns
}

/// The columns of the `user_actions` table (granular user actions).
pub open spec fn user_actions_columns() -> Seq<FieldView> {
    seq![
        FieldView { name: "action_id"@, data_type: DataType::Utf8, nullable: false },
        FieldView { name: "timestamp"@, data_type: DataType::Utf8, nullable: false },
        FieldView { name: "user_id"@, data_type: DataType::Utf8, nullable: false },
        FieldView { name: "session_token_hash"@, data_type: DataType::Utf8, nullable: true },
        FieldView { name: "action_type"@, data_type: DataType::Utf8, nullable: false },
        FieldView { name: "lab_name"@, data_type: DataType::Utf8, nullable: true },
        FieldView { name: "dataset_name"@, data_type: DataType::Utf8, nullable: true },
        FieldView { name: "symbols"@, data_type: DataType::Utf8, nullable: true },
        FieldView { name: "row_count"@, data_type: DataType::Int64, nullable: true },
        FieldView { name: "compute_time_ms"@, data_type: DataType::Float64, nullable: true },
        FieldView { name: "metadata_json"@, data_type: DataType::Utf8, nullable: true },
        FieldView { name: "date_partition"@, data_type: DataType::Utf8, nullable: false },
    ]
}

/// The schema of the `user_actions` table for building row batches.
pub fn user_actions_arrow_schema() -> (schema: Vec<Field>)
    ensures
        fields_view(schema@) == user_actions_columns(),
{
    let mut schema: Vec<Field> = Vec::new();
    schema.push(Field::new("action_id", DataType::Utf8, false));
    schema.push(Field::new("timestamp", DataType::Utf8, false));
    schema.push(Field::new("user_id", DataType::Utf8, false));
    schema.push(Field::new("session_token_hash", DataType::Utf8, true));
    schema.push(Field::new("action_type", DataType::Utf8, false));
    schema.push(Field::new("lab_name", DataType::Utf8, true));
    schema.push(Field::new("dataset_name", DataType::Utf8, true));
    schema.push(Field::new("symbols", DataType::Utf8, true));
    schema.push(Field::new("row_count", DataType::Int64, true));
    schema.push(Field::new("compute_time_ms", DataType::Float64, true));
    schema.push(Field::new("metadata_json", DataType::Utf8, true));
    schema.push(Field::new("date_partition", DataType::Utf8, false));
    assert(fields_view(schema@) =~= user_actions_columns());
    schema
}

/// The columns of the `user_actions` table as the table log records them.
pub fn user_actions_delta_fields() -> (fields: Vec<StructField>)
    ensures
        struct_fields_view(fields@) == logged_fields(user_actions_columns()),
{
    delta_fields_of(&user_actions_arrow_schema())
}

/// The partition columns of the `user_actions` table.
pub fn user_actions_partition_columns() -> (columns: Vec<String>)
    ensures
        names_of(columns@) == seq!["date_partition"@],
{
    let mut columns: Vec<String> = Vec::new();
    columns.push(String::from_str("date_partition"));
    assert(names_of(columns@) =~= seq!["date_partition"@]);
    columns
}

/// The schema that a table was created with.
#[derive(Debug, Clone)]
pub struct TableSchema {
    pub fields: Vec<StructField>,
    pub partition_columns: Vec<String>,
}

/// Everything needed to create one table.
#[derive(Debug, Clone)]
pub struct TableDefinition {
    pub name: &'static str,
    pub arrow_schema: Vec<Field>,
    pub delta_fields: Vec<StructField>,
    pub partition_columns: Vec<String>,
}

impl TableDefinition {
    /// Whether a definition holds the given name, columns and partition
    /// columns, with the logged columns standing for the in-memory ones.
    pub open spec fn describes(
        &self,
        name: Seq<char>,
        columns: Seq<FieldView>,
        partition_columns: Seq<Seq<char>>,
    ) -> bool {
        &&& self.name@ == name
        &&& fields_view(self.arrow_schema@) == columns
        &&& struct_fields_view(self.delta_fields@) == logged_fields(columns)
        &&& names_of(self.partition_columns@) == partition_columns
    }
}

/// The definitions of all tables, in the order in which they are created:
/// users, sessions, audit log, user actions.
pub fn all_tables() -> (tables: Vec<TableDefinition>)
    ensures
        tables@.len() == 4,
        tables@[0].describes(TABLE_USERS@, users_columns(), seq![]),
        tables@[1].describes(TABLE_SESSIONS@, sessions_columns(), seq![]),
        tables@[2].describes(TABLE_AUDIT_LOG@, audit_log_columns(), seq!["date_partition"@]),
        tables@[3].describes(TABLE_USER_ACTIONS@, user_actions_columns(), seq!["date_partition"@]),
{
    let mut tables: Vec<TableDefinition> = Vec::new();
    let partition_columns = users_partition_columns();
    assert(names_of(partition_columns@) =~= Seq::<Seq<char>>::empty());
    tables.push(
        TableDefinition {
            name: TABLE_USERS,
            arrow_schema: users_arrow_schema(),
            delta_fields: users_delta_fields(),
            partition_columns,
        },
    );
    let partition_columns = sessions_partition_columns();
    assert(names_of(partition_columns@) =~= Seq::<Seq<char>>::empty());
    tables.push(
        TableDefinition {
            name: TABLE_SESSIONS,
            arrow_schema: sessions_arrow_schema(),
            delta_fields: sessions_delta_fields(),
            partition_columns,
        },
    );
    let partition_columns = audit_log_partition_columns();
    assert(names_of(partition_columns@) =~= seq!["date_partition"@]);
    tables.push(
        TableDefinition {
            name: TABLE_AUDIT_LOG,
            arrow_schema: audit_log_arrow_schema(),
            delta_fields: audit_log_delta_fields(),
            partition_columns,
        },
    );
    let partition_columns = user_actions_partition_columns();
    assert(names_of(partition_columns@) =~= seq!["date_partition"@]);
    tables.push(
        TableDefinition {
            name: TABLE_USER_ACTIONS,
            arrow_schema: user_actions_arrow_schema(),
            delta_fields: user_actions_delta_fields(),
            partition_columns,
        },
    );
    tables
}

} // verus!
