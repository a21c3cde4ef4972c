//! Table and migration descriptions, and the SQL text written from them.

use vstd::prelude::*;
use vstd::string::StringExecFns;
use crate::text::optional_text;

verus! {

/// The model of a column definition.
pub struct ColumnDefinitionView {
    pub name: Seq<char>,
    pub data_type: Seq<char>,
    pub primary_key: bool,
    pub auto_increment: bool,
    pub not_null: bool,
    pub unique: bool,
    pub default_value: Option<Seq<char>>,
}

/// The definition of one column of a table.
#[derive(Debug)]
pub struct ColumnDefinition {
    pub name: String,
    pub data_type: String,
    pub primary_key: bool,
    pub auto_increment: bool,
    pub not_null: bool,
    pub unique: bool,
    pub default_value: Option<String>,
}

impl View for ColumnDefinition {
    type V = ColumnDefinitionView;

    open spec fn view(&self) -> ColumnDefinitionView {
        ColumnDefinitionView {
            name: self.name@,
            data_type: self.data_type@,
            primary_key: self.primary_key,
            auto_increment: self.auto_increment,
            not_null: self.not_null,
            unique: self.unique,
            default_value: optional_text(self.default_value),
        }
    }
}

impl Clone for ColumnDefinition {
    fn clone(&self) -> (copy: ColumnDefinition)
        ensures
            copy@ == self@,
    {
        ColumnDefinition {
            name: self.name.clone(),
            data_type: self.data_type.clone(),
            primary_key: self.primary_key,
            auto_increment: self.auto_increment,
            not_null: self.not_null,
            unique: self.unique,
            default_value: match &self.default_value {
                Some(v) => Some(v.clone()),
                None => None,
            },
        }
    }
}

impl ColumnDefinition {
    /// A column of the given name and type without any constraint.
    pub fn new(name: &str, data_type: &str) -> (column: ColumnDefinition)
        ensures
            column@ == (ColumnDefinitionView {
                name: name@,
                data_type: data_type@,
                primary_key: false,
                auto_increment: false,
                not_null: false,
                unique: false,
                default_value: None,
            }),
    {
        ColumnDefinition {
            name: String::from_str(name),
            data_type: String::from_str(data_type),
            primary_key: false,
            auto_increment: false,
            not_null: false,
            unique: false,
            default_value: None,
        }
    }

    /// The column as primary key, which also makes it not null.
    pub fn primary_key(self) -> (column: ColumnDefinition)
        ensures
            column@ == (ColumnDefinitionView { primary_key: true, not_null: true, ..self@ }),
    {
        let mut column = self;
        column.primary_key = true;
        column.not_null = true;
        column
    }

    /// The column with automatic increment.
    pub fn auto_increment(self) -> (column: ColumnDefinition)
        ensures
            column@ == (ColumnDefinitionView { auto_increment: true, ..self@ }),
    {
        let mut column = self;
        column.auto_increment = true;
        column
    }

    /// The column without null values.
    pub fn not_null(self) -> (column: ColumnDefinition)
        ensures
            column@ == (ColumnDefinitionView { not_null: true, ..self@ }),
    {
        let mut column = self;
        column.not_null = true;
        column
    }

    /// The column with unique values.
    pub fn unique(self) -> (column: ColumnDefinition)
        ensures
            column@ == (ColumnDefinitionView { unique: true, ..self@ }),
    {
        let mut column = self;
        column.unique = true;
        column
    }

    /// The column with a default value.
    pub fn default_value(self, value: &str) -> (column: ColumnDefinition)
        ensures
            column@ == (ColumnDefinitionView { default_value: Some(value@), ..self@ }),
    {
        let mut column = self;
        column.default_value = Some(String::from_str(value));
        column
    }

    /// Writes the column as it stands in a `CREATE TABLE` statement.
    pub fn to_sql(&self) -> (sql: String)
        ensures
            sql@ == column_sql(self@),
    {
        let mut sql = self.name.clone();
        sql.append(" ");
        sql.append(self.data_type.as_str());
        append_keyword(&mut sql, " PRIMARY KEY", self.primary_key);
        append_keyword(&mut sql, " AUTOINCREMENT", self.auto_increment);
        append_keyword(&mut sql, " NOT NULL", self.not_null);
        match &self.default_value {
            Some(value) => {
                sql.append(" DEFAULT ");
                sql.append(value.as_str());
            },
            None => {},
        }
        append_keyword(&mut sql, " UNIQUE", self.unique);
        sql
    }
}

/// Appends a keyword where it applies.
fn append_keyword(sql: &mut String, text: &str, applies: bool)
    ensures
        final(sql)@ == old(sql)@ + keyword(text@, applies),
{
    if applies {
        sql.append(text);
    }
}

/// A keyword of a column definition, or nothing where it does not apply.
pub open spec fn keyword(text: Seq<char>, applies: bool) -> Seq<char> {
    if applies {
        text
    } else {
        Seq::empty()
    }
}

/// A column as it stands in a `CREATE TABLE` statement: name, type, then
/// the constraints in the order primary key, automatic increment, not
/// null, default, unique.
pub open spec fn column_sql(column: ColumnDefinitionView) -> Seq<char> {
    column.name + " "@ + column.data_type + keyword(" PRIMARY KEY"@, column.primary_key) + keyword(
        " AUTOINCREMENT"@,
        column.auto_increment,
    ) + keyword(" NOT NULL"@, column.not_null) + (match column.default_value {
        Some(value) => " DEFAULT "@ + value,
        None => Seq::empty(),
    }) + keyword(" UNIQUE"@, column.unique)
}

/// The models of column definitions.
pub open spec fn column_views(columns: Seq<ColumnDefinition>) -> Seq<ColumnDefinitionView> {
    Seq::new(columns.len(), |i: int| columns[i]@)
}

/// The columns as they stand in a statement, separated by `, `.
pub open spec fn columns_sql(columns: Seq<ColumnDefinitionView>) -> Seq<char>
    decreases columns.len(),
{
    if columns.len() == 0 {
        Seq::empty()
    } else if columns.len() == 1 {
        column_sql(columns[0])
    } else {
        columns_sql(columns.drop_last()) + ", "@ + column_sql(columns.last())
    }
}

/// The statement that creates a table unless it exists.
pub open spec fn create_table_statement(
    table_name: Seq<char>,
    columns: Seq<ColumnDefinitionView>,
) -> Seq<char> {
    "CREATE TABLE IF NOT EXISTS "@ + table_name + " ("@ + columns_sql(columns) + ")"@
}

/// Writes the statement that creates a table unless it exists.
pub fn create_table_sql(table_name: &str, columns: &Vec<ColumnDefinition>) -> (sql: String)
    ensures
        sql@ == create_table_statement(table_name@, column_views(columns@)),
{
    let mut sql = String::from_str("CREATE TABLE IF NOT EXISTS ");
    sql.append(table_name);
    sql.append(" (");
    let ghost head = sql@;
    let ghost views = column_views(columns@);
    let mut i: usize = 0;
    while i < columns.len()
        invariant
            i <= columns.len(),
            views == column_views(columns@),
            sql@ == head + columns_sql(views.take(i as int)),
        decreases columns.len() - i,
    {
        let ghost upto = views.take(i + 1);
        assert(upto.drop_last() =~= views.take(i as int));
        if i > 0 {
            sql.append(", ");
        }
        sql.append(columns[i].to_sql().as_str());
        i += 1;
    }
    assert(views.take(columns.len() as int) =~= views);
    sql.append(")");
    sql
}

/// Writes the statement that lists the columns of a table.
pub fn table_info_sql(table_name: &str) -> (sql: String)
    ensures
        sql@ == "PRAGMA table_info("@ + table_name@ + ")"@,
{
    let mut sql = String::from_str("PRAGMA table_info(");
    sql.append(table_name);
    sql.append(")");
    sql
}

/// The model of a migration.
pub struct MigrationView {
    pub id: Seq<char>,
    pub description: Seq<char>,
    pub up_sql: Seq<char>,
    pub down_sql: Seq<char>,
}

/// A migration: its identifier, what it is for, the statement that
/// applies it and the statement that takes it back.
#[derive(Debug)]
pub struct Migration {
    pub id: String,
    pub description: String,
    pub up_sql: String,
    pub down_sql: String,
}

impl View for Migration {
    type V = MigrationView;

    open spec fn view(&self) -> MigrationView {
        MigrationView {
            id: self.id@,
            description: self.description@,
            up_sql: self.up_sql@,
            down_sql: self.down_sql@,
        }
    }
}

impl Clone for Migration {
    fn clone(&self) -> (copy: Migration)
        ensures
            copy@ == self@,
    {
        Migration {
            id: self.id.clone(),
            description: self.description.clone(),
            up_sql: self.up_sql.clone(),
            down_sql: self.down_sql.clone(),
        }
    }
}

impl Migration {
    /// A migration without statements.
    pub fn new(id: &str, description: &str) -> (migration: Migration)
        ensures
            migration@ == (MigrationView {
                id: id@,
                description: description@,
                up_sql: Seq::empty(),
                down_sql: Seq::empty(),
            }),
    {
        Migration {
            id: String::from_str(id),
            description: String::from_str(description),
            up_sql: String::new(),
            down_sql: String::new(),
        }
    }

    /// The migration with the statement that applies it.
    pub fn up(self, sql: &str) -> (migration: Migration)
        ensures
            migration@ == (MigrationView { up_sql: sql@, ..self@ }),
    {
        let mut migration = self;
        migration.up_sql = String::from_str(sql);
        migration
    }

    /// The migration with the statement that takes it back.
    pub fn down(self, sql: &str) -> (migration: Migration)
        ensures
            migration@ == (MigrationView { down_sql: sql@, ..self@ }),
    {
        let mut migration = self;
        migration.down_sql = String::from_str(sql);
        migration
    }
}

/// The name of the table that records the migrations applied.
pub const MIGRATIONS_TABLE: &'static str = "migrations";

/// The statement that finds a migration by its identifier.
pub const FIND_MIGRATION: &'static str = "SELECT id FROM migrations WHERE id = ?";

/// The statement that records a migration.
pub const RECORD_MIGRATION: &'static str = "INSERT INTO migrations (id, description) VALUES (?, ?)";

/// The statement that forgets a migration.
pub const FORGET_MIGRATION: &'static str = "DELETE FROM migrations WHERE id = ?";

/// The statement that lists the migrations applied, oldest first.
pub const LIST_MIGRATIONS: &'static str = "SELECT id FROM migrations ORDER BY applied_at";

/// The columns of the table that records the migrations applied: the
/// identifier as primary key, the description, and the time of
/// application, which defaults to the current time.
pub fn migrations_table_columns() -> (columns: Vec<ColumnDefinition>)
    ensures
        columns@.len() == 3,
        columns@[0]@ == (ColumnDefinitionView {
            name: "id"@,
            data_type: "TEXT"@,
            primary_key: true,
            auto_increment: false,
            not_null: true,
            unique: false,
            default_value: None,
        }),
        columns@[1]@ == (ColumnDefinitionView {
            name: "description"@,
            data_type: "TEXT"@,
            primary_key: false,
            auto_increment: false,
            not_null: true,
            unique: false,
            default_value: None,
        }),
        columns@[2]@ == (ColumnDefinitionView {
            name: "applied_at"@,
            data_type: "DATETIME"@,
            primary_key: false,
            auto_increment: false,
            not_null: true,
            unique: false,
            default_value: Some("CURRENT_TIMESTAMP"@),
        }),
{
    let mut columns: Vec<ColumnDefinition> = Vec::new();
    columns.push(ColumnDefinition::new("id", "TEXT").primary_key());
    columns.push(ColumnDefinition::new("description", "TEXT").not_null());
    columns.push(
        ColumnDefinition::new("applied_at", "DATETIME").not_null().default_value(
            "CURRENT_TIMESTAMP",
        ),
    );
    columns
}

/// Whether a migration is to be run: it is, unless its identifier is among
/// those already applied.
pub fn should_run(migration: &Migration, applied: &Vec<String>) -> (run: bool)
    ensures
        run == !exists|i: int| 0 <= i < applied@.len() && #[trigger] applied@[i]@ == migration@.id,
{
    let mut i: usize = 0;
    while i < applied.len()
        invariant
            i <= applied.len(),
            forall|j: int| 0 <= j < i ==> #[trigger] applied@[j]@ != migration@.id,
        decreases applied.len() - i,
    {
        if applied[i] == migration.id {
            return false;
        }
        i += 1;
    }
    true
}

/// A database to connect to.
#[derive(Debug)]
pub struct Database {
    pub connection_string: String,
    pub pool_size: u32,
}

} // verus!
