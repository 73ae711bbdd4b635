//! Small syntax enumerations of the language.
use vstd::prelude::*;

verus! {

/// Lifetime specifier for variables, tasks, and functions. Defaults to static.
#[derive(Clone, Copy, Debug, PartialEq, Eq, Structural)]
pub enum Lifetime {
    Static,
    Automatic,
}

#[derive(Clone, Copy, Debug, PartialEq, Eq, Structural)]
pub struct Timeunit;

#[derive(Clone, Copy, Debug, PartialEq, Eq, Structural)]
pub struct HierarchyItem;

#[derive(Clone, Copy, Debug, PartialEq, Eq, Structural)]
pub enum TypeSign {
    Unspecified,
    Signed,
    Unsigned,
}

#[derive(Clone, Copy, Debug, PartialEq, Eq, Structural)]
pub enum TypeDim {
    Expr,
    Range,
    Queue,
    Unsized,
    Associative,
}

#[derive(Clone, Copy, Debug, PartialEq, Eq, Structural)]
pub enum StructKind {
    Struct,
    Union,
    TaggedUnion,
}

#[derive(Clone, Copy, Debug, PartialEq, Eq, Structural)]
pub enum PortKind {
    NetPort,
    VarPort,
}

#[derive(Clone, Copy, Debug, PartialEq, Eq, Structural)]
pub enum PortDir {
    Input,
    Output,
    Inout,
    Ref,
}

#[derive(Clone, Copy, Debug, PartialEq, Eq, Structural)]
pub enum NetType {
    Supply0,
    Supply1,
    Tri,
    TriAnd,
    TriOr,
    TriReg,
    Tri0,
    Tri1,
    Uwire,
    Wire,
    WireAnd,
    WireOr,
}

#[derive(Clone, Copy, Debug, PartialEq, Eq, Structural)]
pub enum ProcedureKind {
    Initial,
    Always,
    AlwaysComb,
    AlwaysLatch,
    AlwaysFf,
    Final,
}

#[derive(Clone, Copy, Debug, PartialEq, Eq, Structural)]
pub enum JoinKind {
    All,
    Any,
    NoWait,
}

#[derive(Clone, Copy, Debug, PartialEq, Eq, Structural)]
pub enum UniquePriority {
    Unique,
    Unique0,
    Priority,
}

#[derive(Clone, Copy, Debug, PartialEq, Eq, Structural)]
pub enum CaseKind {
    Normal,
    DontCareZ,
    DontCareXZ,
}

#[derive(Clone, Copy, Debug, PartialEq, Eq, Structural)]
pub enum CaseMode {
    Normal,
    Inside,
    Pattern,
}

#[derive(Clone, Copy, Debug, PartialEq, Eq, Structural)]
pub struct CycleDelay {}

#[derive(Clone, Copy, Debug, PartialEq, Eq, Structural)]
pub enum AssignOp {
    Identity,
    Add,
    Sub,
    Mul,
    Div,
    Mod,
    BitAnd,
    BitOr,
    BitXor,
    LogicShL,
    LogicShR,
    ArithShL,
    ArithShR,
}

#[derive(Clone, Copy, Debug, PartialEq, Eq, Structural)]
pub enum EdgeIdent {
    Implicit,
    Edge,
    Posedge,
    Negedge,
}

#[derive(Clone, Copy, Debug, PartialEq, Eq, Structural)]
pub enum ClassItemQualifier {
    Static,
    Protected,
    Local,
    Rand,
    Randc,
    Pure,
    Virtual,
    Const,
}

#[derive(Clone, Copy, Debug, PartialEq, Eq, Structural)]
pub enum RandomQualifier {
    Rand,
    Randc,
}

#[derive(Clone, Copy, Debug, PartialEq, Eq, Structural)]
pub enum ConstraintKind {
    Decl,
    Proto,
    ExternProto,
    PureProto,
}

#[derive(Clone, Copy, Debug, PartialEq, Eq, Structural)]
pub enum SubroutineKind {
    Func,
    Task,
}

#[derive(Clone, Copy, Debug, PartialEq, Eq, Structural)]
pub enum SubroutinePortDir {
    Input,
    Output,
    Inout,
    Ref,
    ConstRef,
}

#[derive(Clone, Copy, Debug, PartialEq, Eq, Structural)]
pub enum NetKind {
    Vectored,
    Scalared,
    Unspecified,
}

#[derive(Clone, Copy, Debug, PartialEq, Eq, Structural)]
pub enum NetStrength {
    Drive(DriveStrength, DriveStrength),
    Charge(ChargeStrength),
}

#[derive(Clone, Copy, Debug, PartialEq, Eq, Structural)]
pub enum DriveStrength {
    Supply0,
    Strong0,
    Pull0,
    Weak0,
    HighZ0,
    Supply1,
    Strong1,
    Pull1,
    Weak1,
    HighZ1,
}

#[derive(Clone, Copy, Debug, PartialEq, Eq, Structural)]
pub enum ChargeStrength {
    Small,
    Medium,
    Large,
}

#[derive(Clone, Copy, Debug, PartialEq, Eq, Structural)]
pub enum SeqBinOp {
    Or,
    And,
    Intersect,
    Within,
}

#[derive(Clone, Copy, Debug, PartialEq, Eq, Structural)]
pub struct PropSpec;

#[derive(Clone, Copy, Debug, PartialEq, Eq, Structural)]
pub enum PropSeqOp {
    Unspecified,
    Weak,
    Strong,
}

#[derive(Clone, Copy, Debug, PartialEq, Eq, Structural)]
pub enum PropSeqBinOp {
    ImplOverlap,
    ImplNonoverlap,
    FollowOverlap,
    FollowNonoverlap,
}

#[derive(Clone, Copy, Debug, PartialEq, Eq, Structural)]
pub enum PropBinOp {
    Or,
    And,
    Until,
    SUntil,
    UntilWith,
    SUntilWith,
    Impl,
    Iff,
    SeqImplOl,
    SeqImplNol,
    SeqFollowOl,
    SeqFollowNol,
}

} // verus!
