//! The resolved syntax tree that the back end consumes.

use vstd::prelude::*;

verus! {

/// How a module may touch one of its handles.
#[derive(Clone, Copy, Debug, PartialEq, Eq, Structural)]
pub enum Usage {
    Read,
    Write,
}

/// A source-level type.
#[derive(Debug, PartialEq, Eq)]
pub enum Type {
    Int,
    Char,
    Bool,
    MemRegion,
    String,
    Tuple(Vec<Type>),
}

/// A typed, named field of a module.
#[derive(Debug, PartialEq, Eq)]
pub struct Handle {
    pub name: String,
    pub usages: Vec<Usage>,
    pub h_type: Type,
}

/// What makes a listener fire. The kind only shows in the listener's
/// function name.
#[derive(Clone, Copy, Debug, PartialEq, Eq, Structural)]
pub enum ListenerKind {
    OnChange,
    OnWrite,
}

/// The binary operators of the expression language.
#[derive(Clone, Copy, Debug, PartialEq, Eq, Structural)]
pub enum Operator {
    Equality,
    Inequality,
    LessThan,
    LessThanOrEqual,
    GreaterThan,
    GreaterThanOrEqual,
    LogicalAnd,
    LogicalOr,
    Add,
    Subtract,
    Multiply,
    Divide,
}

#[derive(Debug, PartialEq, Eq)]
pub struct OutputExpression {
    pub output: String,
    pub expression: Box<ExpressionValue>,
    pub and_return: bool,
}

#[derive(Debug, PartialEq, Eq)]
pub struct LetExpression {
    pub var_name: String,
    pub expression: Box<ExpressionValue>,
}

#[derive(Debug, PartialEq, Eq)]
pub struct IfExpression {
    pub test: Box<ExpressionValue>,
    pub if_true: Box<ExpressionValue>,
    pub if_false: Box<ExpressionValue>,
}

#[derive(Debug, PartialEq, Eq)]
pub struct WhileExpression {
    pub test: Box<ExpressionValue>,
    pub body: Box<ExpressionValue>,
}

/// Copies the parent's handle `state` into the handle `submodule_state` of
/// the submodule at `submodule_index`, and runs that submodule until it is
/// stable.
#[derive(Debug, PartialEq, Eq)]
pub struct CopyToSubModuleInfo {
    pub state: String,
    pub submodule_index: usize,
    pub submodule_state: String,
}

#[derive(Debug, PartialEq, Eq)]
pub enum ExpressionValue {
    Output(OutputExpression),
    Block(Vec<ExpressionValue>),
    Let(LetExpression),
    If(IfExpression),
    While(WhileExpression),
    Empty,
    Break,
    IntLiteral(i64),
    StringLiteral(String),
    CharLiteral(u8),
    ArrayLookup(Box<ExpressionValue>, Box<ExpressionValue>),
    Tuple(Vec<ExpressionValue>),
    TupleLookup(Box<ExpressionValue>, usize),
    ReferenceToState(String),
    CopyToSubModule(CopyToSubModuleInfo),
    FunctionCall(String, Box<ExpressionValue>),
    BinaryOperator(Box<ExpressionValue>, Operator, Box<ExpressionValue>),
}

/// A reactive handler: `implementation` runs when `trigger` has new data.
#[derive(Debug, PartialEq, Eq)]
pub struct Listener {
    pub trigger: String,
    pub kind: ListenerKind,
    pub implementation: ExpressionValue,
}

/// A nested module together with its wiring: each pair of `handle_map`
/// names a handle of the child and the parent handle it is connected to.
/// The first pair for a child handle is the one that counts.
#[derive(Debug, PartialEq, Eq)]
pub struct ModuleInfo {
    pub module: ModuleDecl,
    pub handle_map: Vec<(String, String)>,
}

#[derive(Debug, PartialEq, Eq)]
pub struct ModuleDecl {
    pub name: String,
    pub handles: Vec<Handle>,
    pub listeners: Vec<Listener>,
    pub submodules: Vec<ModuleInfo>,
}

/// The position of the first handle called `name` at or after `from`.
pub open spec fn first_handle_named(handles: Seq<Handle>, name: Seq<char>, from: int) -> Option<int>
    decreases handles.len() - from,
{
    if from < 0 || from >= handles.len() {
        None
    } else if handles[from].name@ == name {
        Some(from)
    } else {
        first_handle_named(handles, name, from + 1)
    }
}

/// The position of the first pair for the child handle `child` at or after
/// `from`.
pub open spec fn first_mapping_for(pairs: Seq<(String, String)>, child: Seq<char>, from: int) -> Option<int>
    decreases pairs.len() - from,
{
    if from < 0 || from >= pairs.len() {
        None
    } else if pairs[from].0@ == child {
        Some(from)
    } else {
        first_mapping_for(pairs, child, from + 1)
    }
}

impl Operator {
    pub open spec fn spec_is_logical(self) -> bool {
        self == Operator::LogicalAnd || self == Operator::LogicalOr
    }

    /// Whether the operator short-circuits.
    #[verifier::when_used_as_spec(spec_is_logical)]
    pub fn is_logical(self) -> (r: bool)
        ensures
            r == self.spec_is_logical(),
    {
        match self {
            Operator::LogicalAnd => true,
            Operator::LogicalOr => true,
            _ => false,
        }
    }
}

impl ListenerKind {
    pub open spec fn spec_name(self) -> Seq<char> {
        match self {
            ListenerKind::OnChange => "OnChange"@,
            ListenerKind::OnWrite => "OnWrite"@,
        }
    }

    /// The kind as it is spelled in function names.
    pub fn to_str(self) -> (r: &'static str)
        ensures
            r@ == self.spec_name(),
    {
        match self {
            ListenerKind::OnChange => "OnChange",
            ListenerKind::OnWrite => "OnWrite",
        }
    }
}

impl Handle {
    pub open spec fn spec_is_output(&self) -> bool {
        self.usages@.contains(Usage::Write)
    }

    /// Whether the module may write the handle.
    #[verifier::when_used_as_spec(spec_is_output)]
    pub fn is_output(&self) -> (r: bool)
        ensures
            r == self.spec_is_output(),
    {
        let mut i: usize = 0;
        while i < self.usages.len()
            invariant
                i <= self.usages.len(),
                forall|j: int| 0 <= j < i ==> self.usages@[j] != Usage::Write,
            decreases self.usages.len() - i,
        {
            if self.usages[i] == Usage::Write {
                return true;
            }
            i += 1;
        }
        false
    }
}

impl ModuleInfo {
    pub open spec fn spec_parent_of(&self, child: Seq<char>) -> Option<Seq<char>> {
        match first_mapping_for(self.handle_map@, child, 0) {
            Some(i) => Some(self.handle_map@[i].1@),
            None => None,
        }
    }

    /// The parent handle wired to the child's handle `child`.
    pub fn parent_of(&self, child: &String) -> (r: Option<&String>)
        ensures
            match r {
                Some(p) => self.spec_parent_of(child@) == Some(p@),
                None => self.spec_parent_of(child@) is None,
            },
    {
        let mut i: usize = 0;
        while i < self.handle_map.len()
            invariant
                i <= self.handle_map.len(),
                first_mapping_for(self.handle_map@, child@, 0) == first_mapping_for(
                    self.handle_map@,
                    child@,
                    i as int,
                ),
            decreases self.handle_map.len() - i,
        {
            if self.handle_map[i].0 == *child {
                return Some(&self.handle_map[i].1);
            }
            i += 1;
        }
        None
    }
}

impl ModuleDecl {
    pub open spec fn spec_idx_for_field(&self, name: Seq<char>) -> Option<int> {
        first_handle_named(self.handles@, name, 0)
    }

    /// The position of the handle called `name`.
    pub fn idx_for_field(&self, name: &String) -> (r: Option<usize>)
        ensures
            match r {
                Some(i) => self.spec_idx_for_field(name@) == Some(i as int) && i < self.handles.len(),
                None => self.spec_idx_for_field(name@) is None,
            },
    {
        proof {
            lemma_first_handle_named(self.handles@, name@, 0);
        }
        let mut i: usize = 0;
        while i < self.handles.len()
            invariant
                i <= self.handles.len(),
                first_handle_named(self.handles@, name@, 0) == first_handle_named(
                    self.handles@,
                    name@,
                    i as int,
                ),
            decreases self.handles.len() - i,
        {
            if self.handles[i].name == *name {
                return Some(i);
            }
            i += 1;
        }
        None
    }

    /// The declared type of the handle called `name`.
    pub fn type_for_field(&self, name: &String) -> (r: Option<&Type>)
        ensures
            match self.spec_idx_for_field(name@) {
                Some(i) => 0 <= i < self.handles.len() && r == Some(&self.handles@[i].h_type),
                None => r is None,
            },
    {
        match self.idx_for_field(name) {
            Some(i) => Some(&self.handles[i].h_type),
            None => None,
        }
    }
}

/// The position of the first module called `name` at or after `from`.
pub open spec fn first_module_named(modules: Seq<ModuleDecl>, name: Seq<char>, from: int) -> Option<
    int,
>
    decreases modules.len() - from,
{
    if from < 0 || from >= modules.len() {
        None
    } else if modules[from].name@ == name {
        Some(from)
    } else {
        first_module_named(modules, name, from + 1)
    }
}

/// The position of the module that a source file is about: the only
/// module where there is but one, and else the first that bears the file's
/// name.
pub open spec fn spec_main_module(modules: Seq<ModuleDecl>, file_name: Seq<char>) -> Option<int> {
    if modules.len() == 1 {
        Some(0)
    } else {
        first_module_named(modules, file_name, 0)
    }
}

/// Picks the module that a source file is about, among the modules that
/// the file declares: the only one, or the first that is called as the file
/// is, without its directory and ending.
pub fn main_module_index(modules: &Vec<ModuleDecl>, file_name: &String) -> (r: Option<usize>)
    ensures
        match r {
            Some(i) => spec_main_module(modules@, file_name@) == Some(i as int) && i
                < modules.len(),
            None => spec_main_module(modules@, file_name@) is None,
        },
{
    if modules.len() == 1 {
        return Some(0);
    }
    let mut i: usize = 0;
    while i < modules.len()
        invariant
            i <= modules.len(),
            first_module_named(modules@, file_name@, 0) == first_module_named(
                modules@,
                file_name@,
                i as int,
            ),
        decreases modules.len() - i,
    {
        if modules[i].name == *file_name {
            return Some(i);
        }
        i += 1;
    }
    None
}

/// A found handle lies in range, bears the name, and is the first to do so.
pub proof fn lemma_first_handle_named(handles: Seq<Handle>, name: Seq<char>, from: int)
    requires
        0 <= from,
    ensures
        match first_handle_named(handles, name, from) {
            Some(i) => from <= i < handles.len() && handles[i].name@ == name && forall|j: int|
                from <= j < i ==> handles[j].name@ != name,
            None => forall|j: int| from <= j < handles.len() ==> handles[j].name@ != name,
        },
    decreases handles.len() - from,
{
    if from < handles.len() && handles[from].name@ != name {
        lemma_first_handle_named(handles, name, from + 1);
    }
}

} // verus!
