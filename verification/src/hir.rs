//! What the lints read of a crate under compilation, as plain values.

use vstd::prelude::*;

verus! {

/// Where a piece of code stands.
pub struct Site {
    /// The path of its file, if it stands in one.
    pub path: Option<String>,
    /// Whether the crate is built as a test harness.
    pub test_crate: bool,
    /// The line on which it begins, counted from one.
    pub line: usize,
    /// The text of its file on disk, if that can be read. Only calls of SQLx's run-time
    /// query constructors look at it.
    pub source: Option<String>,
}

/// How an item imports.
pub enum UseKind {
    Single,
    Glob,
    ListStem,
}

/// The kinds of items.
pub enum ItemKind {
    Use(UseKind),
    Other,
}

/// An item and its source text.
pub struct Item {
    pub kind: ItemKind,
    pub snippet: String,
    pub site: Site,
}

/// A path in code: its segments, or the last segment behind a type.
pub enum QPath {
    Resolved(Vec<String>),
    TypeRelative(String),
}

/// A type as it is written.
pub enum TyKind {
    Path(QPath),
    Other,
}

/// A written type and its source text.
pub struct HirTy {
    pub kind: TyKind,
    pub snippet: String,
    pub site: Site,
}

/// The type that a value has: a primitive number, a struct or enum with its type arguments,
/// or another type.
pub enum Ty {
    Int,
    Uint,
    Float,
    Adt(AdtTy),
    Other,
}

/// A struct, enum or union with its type arguments.
pub struct AdtTy {
    /// Whether it is `core::result::Result`.
    pub is_result: bool,
    pub type_args: Vec<Ty>,
}

/// The kinds of expressions on which a method is called.
pub enum ReceiverKind {
    /// A method call, by the method's name.
    MethodCall(String),
    /// A call, by the path of what is called if it is a path.
    Call(Option<QPath>),
    Other,
}

/// The expression on which a method is called, and the type of its value.
pub struct Receiver {
    pub kind: ReceiverKind,
    pub ty: Ty,
}

/// What a call calls: its source text, and the full path of its definition if it is a path
/// that names one.
pub struct Callee {
    pub snippet: String,
    pub def_path: Option<String>,
}

/// A method call: the method's name, the full path of its definition if that is known, and
/// the expression it is called on.
pub struct MethodCall {
    pub name: String,
    pub def_path: Option<String>,
    pub receiver: Receiver,
}

/// The kinds of expressions.
pub enum ExprKind {
    Lit,
    Call(Callee),
    MethodCall(MethodCall),
    Other,
}

/// What a coroutine was written as.
pub enum CoroutineDesugaring {
    Async,
    Gen,
    AsyncGen,
}

/// The kinds of coroutines.
pub enum CoroutineKind {
    Desugared(CoroutineDesugaring),
    Coroutine,
}

/// The kinds of closures. The body of an `async` block or function is one.
pub enum ClosureKind {
    Closure,
    Coroutine(CoroutineKind),
    CoroutineClosure(CoroutineDesugaring),
}

/// An expression around other code.
pub enum NodeExpr {
    Closure(ClosureKind),
    /// A call, by the source text of what is called.
    Call(String),
    /// A method call, by the method's name.
    MethodCall(String),
    Other,
}

/// An attribute: its path, and the paths of the entries in its list.
pub struct Attribute {
    pub name: String,
    pub nested: Vec<String>,
}

/// A node of the syntax tree.
pub enum Node {
    Item(Vec<Attribute>),
    ImplItem(Vec<Attribute>),
    TraitItem(Vec<Attribute>),
    Expr(NodeExpr),
    Other,
}

/// An expression, its source text, and the nodes around it from the inside out.
pub struct Expr {
    pub kind: ExprKind,
    pub snippet: String,
    pub ancestors: Vec<Node>,
    pub site: Site,
}

/// The kinds of functions, with their names.
pub enum FnKind {
    ItemFn(String),
    Method(String),
    Closure,
}

/// How far a function can be reached.
pub enum Reach {
    /// From outside the crate.
    Public,
    /// From all of the crate: `pub(crate)` or `pub(in crate)`, in a module that can be reached from outside.
    Crate,
    /// No further than that.
    Private,
}

/// A function: the types of its parameters as they are written, how far it can be reached,
/// and the node that defines it followed by the nodes around it.
pub struct Function {
    pub kind: FnKind,
    pub inputs: Vec<TyKind>,
    pub reach: Reach,
    pub test_crate: bool,
    pub nodes: Vec<Node>,
}

} // verus!
