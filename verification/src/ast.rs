//! The C syntax tree that the translator reads. It holds, as plain values,
//! what the translation looks at in a parsed C translation unit.
use vstd::prelude::*;

verus! {

pub enum StorageClassSpecifier {
    Typedef,
    Extern,
    Static,
    ThreadLocal,
    Auto,
    Register,
}

pub enum TypeQualifier {
    Const,
    Restrict,
    Volatile,
    Nonnull,
    NullUnspecified,
    Nullable,
    Atomic,
}

pub enum UnaryOperator {
    PostIncrement,
    PostDecrement,
    PreIncrement,
    PreDecrement,
    Address,
    Indirection,
    Plus,
    Minus,
    Complement,
    Negate,
}

pub enum BinaryOperator {
    Index,
    Multiply,
    Divide,
    Modulo,
    Plus,
    Minus,
    ShiftLeft,
    ShiftRight,
    Less,
    Greater,
    LessOrEqual,
    GreaterOrEqual,
    Equals,
    NotEquals,
    BitwiseAnd,
    BitwiseXor,
    BitwiseOr,
    LogicalAnd,
    LogicalOr,
    Assign,
    AssignMultiply,
    AssignDivide,
    AssignModulo,
    AssignPlus,
    AssignMinus,
    AssignShiftLeft,
    AssignShiftRight,
    AssignBitwiseAnd,
    AssignBitwiseXor,
    AssignBitwiseOr,
}

pub enum MemberOperator {
    Direct,
    Indirect,
}

pub enum IntegerBase {
    Decimal,
    Octal,
    Hexadecimal,
    Binary,
}

/// A constant as written in the source: the digits of an integer without
/// its base prefix or suffix, the text of a floating constant without its
/// suffix, or a character constant with its quotes.
pub enum Constant {
    Integer(IntegerBase, String),
    Float(String),
    Character(String),
}

pub enum Expression {
    Identifier(String),
    Constant(Constant),
    /// The pieces of a string literal as written, each with its quotes.
    StringLiteral(Vec<String>),
    GenericSelection,
    Member(MemberOperator, Box<Expression>, String),
    Call(Box<Expression>, Vec<Expression>),
    CompoundLiteral,
    SizeOfTy,
    SizeOfVal,
    AlignOf,
    UnaryOperator(UnaryOperator, Box<Expression>),
    Cast(TypeName, Box<Expression>),
    BinaryOperator(BinaryOperator, Box<Expression>, Box<Expression>),
    Conditional,
    Comma,
    OffsetOf,
    VaArg,
    Statement(Box<Statement>),
}

pub struct TypeName {
    pub specifiers: Vec<SpecifierQualifier>,
    pub declarator: Option<Declarator>,
}

pub enum SpecifierQualifier {
    TypeSpecifier(TypeSpecifier),
    TypeQualifier(TypeQualifier),
    Extension,
}

pub enum TypeSpecifier {
    Void,
    Char,
    Short,
    Int,
    Long,
    Float,
    Double,
    Signed,
    Unsigned,
    Bool,
    Complex,
    Atomic,
    Struct(StructType),
    Enum(EnumType),
    TypedefName(String),
    TypeOf,
    TS18661Float,
}

/// A struct or union type. `anon_id` tells the struct nodes of one tree
/// apart: a struct without a tag is given a generated tag the first time it
/// is translated, and the tag stays with the node (the translation state
/// records it under this id), so distinct nodes carry distinct ids.
pub struct StructType {
    pub anon_id: u64,
    pub identifier: Option<String>,
    pub declarations: Option<Vec<StructDeclaration>>,
}

pub enum StructDeclaration {
    Field(StructField),
    StaticAssert,
}

pub struct StructField {
    pub specifiers: Vec<SpecifierQualifier>,
    pub declarators: Vec<StructDeclarator>,
}

pub struct StructDeclarator {
    pub declarator: Option<Declarator>,
}

/// An enum type: the names of its enumerators, in order.
pub struct EnumType {
    pub enumerators: Vec<String>,
}

pub enum DeclarationSpecifier {
    StorageClass(StorageClassSpecifier),
    TypeSpecifier(TypeSpecifier),
    TypeQualifier(TypeQualifier),
    Function,
    Alignment,
    Extension,
}

pub struct Declaration {
    pub specifiers: Vec<DeclarationSpecifier>,
    pub declarators: Vec<InitDeclarator>,
}

pub struct InitDeclarator {
    pub declarator: Declarator,
    pub initializer: Option<Initializer>,
}

pub enum Initializer {
    Expression(Box<Expression>),
    List,
}

pub struct Declarator {
    pub kind: DeclaratorKind,
    pub derived: Vec<DerivedDeclarator>,
}

pub enum DeclaratorKind {
    Abstract,
    Identifier(String),
    /// A parenthesized inner declarator, as in a function pointer.
    Declarator,
}

pub enum DerivedDeclarator {
    Pointer,
    Array(ArraySize),
    Function(Vec<ParameterDeclaration>),
    /// An old-style parameter list: the parameter names.
    KRFunction(Vec<String>),
    Block,
}

pub enum ArraySize {
    Unknown,
    VariableUnknown,
    VariableExpression(Box<Expression>),
    StaticExpression(Box<Expression>),
}

pub struct ParameterDeclaration {
    pub specifiers: Vec<DeclarationSpecifier>,
    pub declarator: Option<Declarator>,
}

pub enum Statement {
    Labeled(LabeledStatement),
    Compound(Vec<BlockItem>),
    Expression(Option<Box<Expression>>),
    If(IfStatement),
    Switch(SwitchStatement),
    While(WhileStatement),
    DoWhile(DoWhileStatement),
    For(ForStatement),
    Goto,
    Continue,
    Break,
    Return(Option<Box<Expression>>),
    Asm,
}

pub struct LabeledStatement {
    pub label: Label,
    pub statement: Box<Statement>,
}

pub enum Label {
    Identifier,
    Case(Box<Expression>),
    CaseRange,
    Default,
}

pub struct IfStatement {
    pub condition: Box<Expression>,
    pub then_statement: Box<Statement>,
    pub else_statement: Option<Box<Statement>>,
}

pub struct SwitchStatement {
    pub expression: Box<Expression>,
    pub statement: Box<Statement>,
}

pub struct WhileStatement {
    pub expression: Box<Expression>,
    pub statement: Box<Statement>,
}

pub struct DoWhileStatement {
    pub statement: Box<Statement>,
    pub expression: Box<Expression>,
}

pub struct ForStatement {
    pub initializer: ForInitializer,
    pub condition: Option<Box<Expression>>,
    pub step: Option<Box<Expression>>,
    pub statement: Box<Statement>,
}

pub enum ForInitializer {
    Empty,
    Expression(Box<Expression>),
    Declaration(Declaration),
    StaticAssert,
}

pub enum BlockItem {
    Declaration(Declaration),
    StaticAssert,
    Statement(Statement),
}

pub struct FunctionDefinition {
    pub specifiers: Vec<DeclarationSpecifier>,
    pub declarator: Declarator,
    pub statement: Statement,
}

pub enum ExternalDeclaration {
    Declaration(Declaration),
    StaticAssert,
    FunctionDefinition(FunctionDefinition),
}

pub struct TranslationUnit {
    pub items: Vec<ExternalDeclaration>,
}

} // verus!
