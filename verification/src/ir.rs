use vstd::prelude::*;

use crate::schema::Ident;
use crate::schema::QualifiedName;

verus! {

/// A column's data type.
#[derive(Debug)]
pub enum DataType {
    Boolean,
    SmallInt,
    Integer,
    BigInt,
    Real,
    DoublePrecision,
    Numeric { precision: Option<u32>, scale: Option<u32> },
    Text,
    Varchar { length: Option<u32> },
    Char { length: Option<u32> },
    Blob,
    Date,
    Time { with_timezone: bool },
    Timestamp { with_timezone: bool },
    Json,
    Jsonb,
    Uuid,
    Array(Box<DataType>),
    Custom(String),
}

/// A constant value. A floating-point value is held as the decimal text it is written with.
#[derive(Debug)]
pub enum Value {
    String(String),
    Integer(i64),
    Float(String),
    Bool(bool),
    Null,
}

/// A literal in an expression. A floating-point literal is held as its decimal text.
#[derive(Debug)]
pub enum Literal {
    String(String),
    Integer(i64),
    Float(String),
    Boolean(bool),
    Value(Value),
}

#[derive(Debug)]
pub enum BinaryOperator {
    Add,
    Subtract,
    Multiply,
    Divide,
    Modulo,
    StringConcat,
    BitwiseAnd,
    BitwiseOr,
    BitwiseXor,
}

#[derive(Debug)]
pub enum UnaryOperator {
    Plus,
    Minus,
    Not,
}

#[derive(Debug)]
pub enum ComparisonOp {
    Equal,
    NotEqual,
    GreaterThan,
    GreaterThanOrEqual,
    LessThan,
    LessThanOrEqual,
    Like,
    ILike,
}

/// The quantifier of a comparison against a subquery (`ANY`, `SOME`, `ALL`).
#[derive(Debug)]
pub enum SetQuantifier {
    Any,
    SomeOf,
    All,
}

#[derive(Debug)]
pub enum IsTest {
    Null,
    NotNull,
    True,
    NotTrue,
    False,
    NotFalse,
    Unknown,
    NotUnknown,
}

/// The `OVER (...)` clause of a window function call.
#[derive(Debug)]
pub struct WindowSpec {
    pub partition_by: Vec<Expr>,
    pub order_by: Vec<Expr>,
}

/// A subquery, kept as SQL text.
#[derive(Debug)]
pub struct SubQuery {
    pub sql: String,
}

/// An SQL expression.
#[derive(Debug)]
pub enum Expr {
    Literal(Literal),
    Ident(Ident),
    QualifiedIdent { qualifier: Ident, name: Ident },
    Null,
    Raw(String),
    BinaryOp { left: Box<Expr>, op: BinaryOperator, right: Box<Expr> },
    UnaryOp { op: UnaryOperator, expr: Box<Expr> },
    Comparison {
        left: Box<Expr>,
        op: ComparisonOp,
        right: Box<Expr>,
        quantifier: Option<SetQuantifier>,
    },
    And(Box<Expr>, Box<Expr>),
    Or(Box<Expr>, Box<Expr>),
    Not(Box<Expr>),
    Is { expr: Box<Expr>, test: IsTest },
    Between { expr: Box<Expr>, low: Box<Expr>, high: Box<Expr>, negated: bool },
    In { expr: Box<Expr>, list: Vec<Expr>, negated: bool },
    Paren(Box<Expr>),
    Tuple(Vec<Expr>),
    Function { name: String, args: Vec<Expr>, distinct: bool, over: Option<WindowSpec> },
    Cast { expr: Box<Expr>, data_type: DataType },
    Collate { expr: Box<Expr>, collation: String },
    Case {
        operand: Option<Box<Expr>>,
        when_clauses: Vec<(Expr, Expr)>,
        else_clause: Option<Box<Expr>>,
    },
    ArrayConstructor(Vec<Expr>),
    Exists(SubQuery),
}

} // verus!

verus! {

/// `GENERATED ... AS IDENTITY` settings of a column.
#[derive(Debug)]
pub struct Identity {
    pub always: bool,
    pub start: Option<i64>,
    pub increment: Option<i64>,
    pub min_value: Option<i64>,
    pub max_value: Option<i64>,
    pub cache: Option<i64>,
    pub cycle: bool,
}

/// A generated column's expression and whether it is stored.
#[derive(Debug)]
pub struct GeneratedColumn {
    pub expr: Expr,
    pub stored: bool,
}

#[derive(Debug)]
pub struct Column {
    pub name: Ident,
    pub data_type: DataType,
    pub not_null: bool,
    pub default: Option<Expr>,
    pub identity: Option<Identity>,
    pub generated: Option<GeneratedColumn>,
    pub collation: Option<String>,
    /// The MySQL `AUTO_INCREMENT` flag as it was read, when the column carries one.
    pub auto_increment_hint: Option<Value>,
    /// The PostgreSQL identity mode (`a`/`always` or `d`/`by default`) as it was read,
    /// when the column carries one.
    pub identity_hint: Option<Value>,
    /// The PostgreSQL generation mode as it was read, when the column carries one.
    pub generated_hint: Option<Value>,
}

#[derive(Debug)]
pub struct PrimaryKey {
    pub name: Option<Ident>,
    pub columns: Vec<Ident>,
}

#[derive(Debug)]
pub enum ForeignKeyAction {
    NoAction,
    Restrict,
    Cascade,
    SetNull,
    SetDefault,
}

/// Whether a constraint may be deferred, and when a deferrable one is checked.
#[derive(Debug)]
pub enum Deferrable {
    Deferrable { initially_deferred: bool },
    NotDeferrable,
}

#[derive(Debug)]
pub struct ForeignKey {
    pub name: Option<Ident>,
    pub columns: Vec<Ident>,
    pub referenced_table: QualifiedName,
    pub referenced_columns: Vec<Ident>,
    pub on_delete: Option<ForeignKeyAction>,
    pub on_update: Option<ForeignKeyAction>,
    pub deferrable: Option<Deferrable>,
}

#[derive(Debug)]
pub struct CheckConstraint {
    pub name: Option<Ident>,
    pub expr: Expr,
    pub no_inherit: bool,
}

#[derive(Debug)]
pub enum SortOrder {
    Asc,
    Desc,
}

#[derive(Debug)]
pub enum NullsOrder {
    First,
    Last,
}

#[derive(Debug)]
pub struct ExclusionElement {
    pub expr: Expr,
    pub operator: String,
    pub opclass: Option<String>,
    pub order: Option<SortOrder>,
    pub nulls: Option<NullsOrder>,
}

#[derive(Debug)]
pub struct Exclusion {
    pub name: Option<Ident>,
    pub index_method: String,
    pub elements: Vec<ExclusionElement>,
    pub where_clause: Option<Expr>,
    pub deferrable: Option<Deferrable>,
}

/// The dialect-specific table options that SQLite reads: `WITHOUT ROWID`, `STRICT`,
/// and the statement the table was read from.
#[derive(Debug)]
pub struct TableOptions {
    pub without_rowid: Option<Value>,
    pub strict: Option<Value>,
    pub source_sql: Option<Value>,
    /// The MySQL `PARTITION BY ...` clause as it was read.
    pub partition_sql: Option<Value>,
    /// The other options, each under its key, in increasing order of the keys.
    pub extra: Vec<(String, Value)>,
}

#[derive(Debug)]
pub struct Table {
    pub name: QualifiedName,
    pub columns: Vec<Column>,
    pub primary_key: Option<PrimaryKey>,
    pub foreign_keys: Vec<ForeignKey>,
    pub checks: Vec<CheckConstraint>,
    pub exclusions: Vec<Exclusion>,
    pub partition: Option<Partition>,
    pub options: TableOptions,
    /// The name the table had before, when an annotation says it was renamed.
    pub renamed_from: Option<Ident>,
}

#[derive(Debug, Clone, Copy, PartialEq, Eq, Structural)]
pub enum PartitionStrategy {
    Range,
    List,
    Hash,
    Key,
}

/// The bound of one partition.
#[derive(Debug)]
pub enum PartitionBound {
    LessThan(Vec<Expr>),
    In(Vec<Expr>),
    FromTo { from: Vec<Expr>, to: Vec<Expr> },
    MaxValue,
}

#[derive(Debug)]
pub struct PartitionElement {
    pub name: Ident,
    pub bound: Option<PartitionBound>,
    /// The MySQL subpartition clause as it was read.
    pub subpartitions: Option<Value>,
}

#[derive(Debug)]
pub struct Partition {
    pub strategy: PartitionStrategy,
    pub columns: Vec<Ident>,
    pub partitions: Vec<PartitionElement>,
}

#[derive(Debug)]
pub struct View {
    pub name: QualifiedName,
    pub columns: Vec<Ident>,
    pub query: String,
    pub check_option: Option<CheckOption>,
    pub security: Option<ViewSecurity>,
    /// The name the view had before, when an annotation says it was renamed.
    pub renamed_from: Option<Ident>,
}

#[derive(Debug)]
pub enum CheckOption {
    Local,
    Cascaded,
}

#[derive(Debug)]
pub enum ViewSecurity {
    Definer,
    Invoker,
}

/// What an index is defined on.
#[derive(Debug)]
pub enum IndexOwner {
    Table(QualifiedName),
    View(QualifiedName),
    MaterializedView(QualifiedName),
}

#[derive(Debug)]
pub struct IndexColumn {
    pub expr: Expr,
}

#[derive(Debug)]
pub struct IndexDef {
    pub name: Option<Ident>,
    pub owner: IndexOwner,
    pub columns: Vec<IndexColumn>,
    pub unique: bool,
    pub method: Option<String>,
    pub concurrent: bool,
    pub where_clause: Option<Expr>,
}

#[derive(Debug)]
pub enum TriggerTiming {
    Before,
    After,
    InsteadOf,
}

#[derive(Debug)]
pub enum TriggerEvent {
    Insert,
    Update,
    Delete,
    Truncate,
}

#[derive(Debug)]
pub enum TriggerForEach {
    Row,
    Statement,
}

#[derive(Debug)]
pub struct Trigger {
    pub name: QualifiedName,
    pub table: QualifiedName,
    pub timing: TriggerTiming,
    pub events: Vec<TriggerEvent>,
    pub for_each: TriggerForEach,
    pub when_clause: Option<Expr>,
    pub body: String,
}

#[derive(Debug)]
pub enum FunctionParamMode {
    In,
    Out,
    InOut,
    Variadic,
}

#[derive(Debug)]
pub struct FunctionParam {
    pub name: Option<Ident>,
    pub data_type: DataType,
    pub mode: Option<FunctionParamMode>,
    pub default: Option<Expr>,
}

#[derive(Debug)]
pub enum FunctionSecurity {
    Definer,
    Invoker,
}

#[derive(Debug)]
pub enum Volatility {
    Immutable,
    Stable,
    Volatile,
}

#[derive(Debug)]
pub struct Function {
    pub name: QualifiedName,
    pub params: Vec<FunctionParam>,
    pub return_type: Option<DataType>,
    pub language: String,
    pub body: String,
    pub volatility: Option<Volatility>,
    pub security: Option<FunctionSecurity>,
}

#[derive(Debug)]
pub struct MaterializedView {
    pub name: QualifiedName,
    pub columns: Vec<Column>,
    pub query: String,
    pub options: TableOptions,
}

#[derive(Debug)]
pub struct Sequence {
    pub name: QualifiedName,
    pub data_type: Option<DataType>,
    pub increment: Option<i64>,
    pub min_value: Option<i64>,
    pub max_value: Option<i64>,
    pub start: Option<i64>,
    pub cache: Option<i64>,
    pub cycle: bool,
    /// The table and column that own the sequence.
    pub owned_by: Option<(QualifiedName, Ident)>,
}

/// One change to a sequence; `None` for a bound removes it.
#[derive(Debug)]
pub enum SequenceChange {
    SetType(DataType),
    SetIncrement(i64),
    SetMinValue(Option<i64>),
    SetMaxValue(Option<i64>),
    SetStart(i64),
    SetCache(i64),
    SetCycle(bool),
}

#[derive(Debug)]
pub enum TypeKind {
    Enum { labels: Vec<String> },
    Composite { fields: Vec<(Ident, DataType)> },
    Range { subtype: DataType },
}

/// A user-defined type.
#[derive(Debug)]
pub struct TypeDef {
    pub name: QualifiedName,
    pub kind: TypeKind,
}

/// Where a new enum label goes, relative to an existing one.
#[derive(Debug)]
pub enum EnumValuePosition {
    Before(String),
    After(String),
}

#[derive(Debug)]
pub enum TypeChange {
    AddValue { value: String, position: Option<EnumValuePosition> },
    RenameValue { from: String, to: String },
}

#[derive(Debug)]
pub struct Domain {
    pub name: QualifiedName,
    pub data_type: DataType,
    pub default: Option<Expr>,
    pub not_null: bool,
    pub checks: Vec<CheckConstraint>,
}

#[derive(Debug)]
pub enum DomainChange {
    SetDefault(Option<Expr>),
    SetNotNull(bool),
    AddConstraint { name: Option<Ident>, check: Expr },
    DropConstraint(Ident),
}

#[derive(Debug)]
pub struct Extension {
    pub name: Ident,
    pub schema: Option<Ident>,
    pub version: Option<String>,
}

#[derive(Debug)]
pub struct SchemaDef {
    pub name: Ident,
}

/// The object a comment is attached to.
#[derive(Debug)]
pub enum CommentTarget {
    Table(QualifiedName),
    Column { table: QualifiedName, column: Ident },
    Index(QualifiedName),
    View(QualifiedName),
    MaterializedView(QualifiedName),
    Sequence(QualifiedName),
    Trigger(QualifiedName),
    Function(QualifiedName),
    Type(QualifiedName),
    Domain(QualifiedName),
    Extension(Ident),
    Schema(Ident),
}

/// A comment on an object; `None` removes it.
#[derive(Debug)]
pub struct Comment {
    pub target: CommentTarget,
    pub text: Option<String>,
}

#[derive(Debug)]
pub enum PrivilegeOp {
    Select,
    Insert,
    Update,
    Delete,
    Truncate,
    References,
    Trigger,
    Usage,
    Create,
    Connect,
    Temporary,
    Execute,
    All,
}

/// What a privilege is granted on.
#[derive(Debug)]
pub enum PrivilegeObject {
    Table(QualifiedName),
    View(QualifiedName),
    MaterializedView(QualifiedName),
    Sequence(QualifiedName),
    Schema(Ident),
    Database(Ident),
    Domain(QualifiedName),
    Type(QualifiedName),
    Function(QualifiedName),
}

#[derive(Debug)]
pub struct Privilege {
    pub operations: Vec<PrivilegeOp>,
    pub on: PrivilegeObject,
    pub grantee: Ident,
    pub with_grant_option: bool,
}

#[derive(Debug)]
pub enum PolicyCommand {
    All,
    Select,
    Insert,
    Update,
    Delete,
}

/// A row-level security policy.
#[derive(Debug)]
pub struct Policy {
    pub name: Ident,
    pub table: QualifiedName,
    pub permissive: bool,
    pub command: Option<PolicyCommand>,
    pub roles: Vec<Ident>,
    pub using_expr: Option<Expr>,
    pub check_expr: Option<Expr>,
}

/// A schema object.
#[derive(Debug)]
pub enum SchemaObject {
    Table(Table),
    View(View),
    MaterializedView(MaterializedView),
    Index(IndexDef),
    Sequence(Sequence),
    Trigger(Trigger),
    Function(Function),
    Type(TypeDef),
    Domain(Domain),
    Extension(Extension),
    Schema(SchemaDef),
    Comment(Comment),
    Privilege(Privilege),
    Policy(Policy),
}

} // verus!

verus! {

/// One change to a column's definition.
#[derive(Debug)]
pub enum ColumnChange {
    SetType(DataType),
    SetNotNull(bool),
    SetDefault(Option<Expr>),
    SetIdentity(Option<Identity>),
    SetGenerated(Option<GeneratedColumn>),
    SetCollation(Option<String>),
}

/// Where a new column goes among the existing ones.
#[derive(Debug)]
pub enum ColumnPosition {
    First,
    After(Ident),
}

/// One change between two schemas.
#[derive(Debug)]
pub enum DiffOp {
    CreateTable(Table),
    DropTable(QualifiedName),
    RenameTable { from: QualifiedName, to: QualifiedName },
    AddColumn { table: QualifiedName, column: Column, position: Option<ColumnPosition> },
    DropColumn { table: QualifiedName, column: Ident },
    AlterColumn { table: QualifiedName, column: Ident, changes: Vec<ColumnChange> },
    RenameColumn { table: QualifiedName, from: Ident, to: Ident },
    AddIndex(IndexDef),
    DropIndex { owner: IndexOwner, name: Ident },
    RenameIndex { owner: IndexOwner, from: Ident, to: Ident },
    AddForeignKey { table: QualifiedName, fk: ForeignKey },
    DropForeignKey { table: QualifiedName, name: Ident },
    AddCheck { table: QualifiedName, check: CheckConstraint },
    DropCheck { table: QualifiedName, name: Ident },
    AddExclusion { table: QualifiedName, exclusion: Exclusion },
    DropExclusion { table: QualifiedName, name: Ident },
    SetPrimaryKey { table: QualifiedName, pk: PrimaryKey },
    DropPrimaryKey { table: QualifiedName },
    AddPartition { table: QualifiedName, partition: Partition },
    DropPartition { table: QualifiedName, name: Ident },
    CreateView(View),
    DropView(QualifiedName),
    CreateMaterializedView(MaterializedView),
    DropMaterializedView(QualifiedName),
    CreateSequence(Sequence),
    DropSequence(QualifiedName),
    AlterSequence { name: QualifiedName, changes: Vec<SequenceChange> },
    CreateTrigger(Trigger),
    DropTrigger { name: QualifiedName, table: Option<QualifiedName> },
    CreateFunction(Function),
    DropFunction(QualifiedName),
    CreateType(TypeDef),
    DropType(QualifiedName),
    AlterType { name: QualifiedName, change: TypeChange },
    CreateDomain(Domain),
    DropDomain(QualifiedName),
    AlterDomain { name: QualifiedName, change: DomainChange },
    CreateExtension(Extension),
    DropExtension(QualifiedName),
    CreateSchema(SchemaDef),
    DropSchema(QualifiedName),
    SetComment(Comment),
    DropComment { target: CommentTarget },
    Grant(Privilege),
    Revoke(Privilege),
    CreatePolicy(Policy),
    DropPolicy { name: Ident, table: QualifiedName },
    AlterTableOptions { table: QualifiedName, options: TableOptions },
}

/// The steps of a SQLite table rebuild, in the order they run.
#[derive(Debug, Clone, Copy, PartialEq, Eq, Structural)]
pub enum SqliteRebuildStep {
    CreateShadowTable,
    CopyData,
    DropOldTable,
    RenameShadowTable,
    RecreateIndexes,
    RecreateTriggers,
}

/// What a statement belongs to, for those that are part of a larger plan.
#[derive(Debug)]
pub enum StatementContext {
    SqliteTableRebuild { table: QualifiedName, step: SqliteRebuildStep },
}

/// A statement to run, and whether it may run inside a transaction.
#[derive(Debug)]
pub enum Statement {
    Sql { sql: String, transactional: bool, context: Option<StatementContext> },
}

} // verus!
