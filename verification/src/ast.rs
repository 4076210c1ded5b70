//! The modeled syntax tree of one source file: the statement,
//! declaration, expression and type-annotation shapes that declaration
//! extraction reads. Anything else a parser may produce is carried as
//! one of the `Other` variants.

use vstd::prelude::*;

verus! {

/// A type annotation as parsed.
pub enum TypeNode {
    StrKeyword,
    NumKeyword,
    BoolKeyword,
    AnyKeyword,
    VoidKeyword,
    NullKeyword,
    UndefinedKeyword,
    ArrayType(Box<TypeNode>),
    UnionType(Vec<TypeNode>),
    StrLiteral(String),
    NumLiteral(i64),
    BoolLiteral(bool),
    OtherLiteral,
    RefNamed(String, Option<Vec<TypeNode>>),
    RefOther,
    OtherType,
}

/// A property signature of an interface body; a key of `None` stands
/// for a non-identifier key.
pub struct PropertySig {
    pub key: Option<String>,
    pub type_ann: Option<TypeNode>,
    pub optional: bool,
}

pub enum SigNode {
    Property(PropertySig),
    OtherSig,
}

pub struct InterfaceNode {
    pub name: String,
    pub members: Vec<SigNode>,
}

/// An enum member's initializer expression.
pub enum InitNode {
    NumInit(i64),
    StrInit(String),
    OtherInit,
}

pub struct EnumMemberNode {
    pub initializer: Option<InitNode>,
}

pub struct EnumNode {
    pub name: String,
    pub members: Vec<EnumMemberNode>,
}

pub enum ArgNode {
    Spread(Box<Expr>),
    Plain(Box<Expr>),
    OtherArg,
}

pub enum ObjectPart {
    PropValue(Box<Expr>),
    OtherPart,
}

pub enum ClassMember {
    Method(Option<Vec<Stmt>>),
    PropertyDef(Option<Box<Expr>>),
    OtherMember,
}

pub enum Expr {
    Ident(String),
    Call(Box<Expr>, Vec<ArgNode>),
    FunctionExpr(Option<Vec<Stmt>>),
    ArrowExpr(Vec<Stmt>),
    ObjectExpr(Vec<ObjectPart>),
    Unary(Box<Expr>),
    Binary(Box<Expr>, Box<Expr>),
    Logical(Box<Expr>, Box<Expr>),
    Member,
    OtherExpr,
}

pub enum Decl {
    InterfaceDecl(InterfaceNode),
    EnumDecl(EnumNode),
    FunctionDecl(Option<Vec<Stmt>>),
    ClassDecl(Vec<ClassMember>),
    VarDecl(Vec<Option<Box<Expr>>>),
    OtherDecl,
}

pub enum Stmt {
    ExprStmt(Box<Expr>),
    ReturnStmt(Option<Box<Expr>>),
    IfStmt(Box<Expr>, Box<Stmt>, Option<Box<Stmt>>),
    BlockStmt(Vec<Stmt>),
    DeclStmt(Decl),
    ImportDecl(String),
    ExportNamed(Option<Decl>, Option<String>),
    ExportAll(String),
    OtherStmt,
}

/// One parsed file: its top-level statements.
pub struct SourceModule {
    pub body: Vec<Stmt>,
}

} // verus!
