//! The structural model: an immutable, normalized view of one compilation
//! unit's declarations. Construction validates every cross-reference, so
//! detectors never observe a partial or dangling unit.

use vstd::prelude::*;

verus! {

/// Shape of a field or parameter type, normalized to what the rules read.
#[derive(Clone, Copy, PartialEq, Eq, Debug)]
pub enum TypeShape {
    /// A primitive value (integer, bool, char).
    Primitive,
    /// A generic value container (a vector, an option, a map) with no
    /// domain meaning of its own.
    GenericContainer,
    /// A type declared in this unit, owned directly.
    Named { decl: usize },
    /// A borrowed reference; `pointee_owner` names the declaration owning
    /// the borrowed data when that owner is known.
    Reference { pointee_owner: Option<usize> },
    /// A raw pointer, with the same ownership tag.
    RawPointer { pointee_owner: Option<usize> },
    /// A boxed trait object, abstract dispatch.
    TraitObject { trait_decl: Option<usize> },
    /// A shared-ownership handle (reference-counted) to a declared type.
    SharedHandle { decl: usize },
    /// A concrete type of an external service, named directly.
    ExternalService,
}

/// One struct field: its domain-noun cluster (from the keyword-cluster
/// table applied during normalization) and its type shape.
#[derive(Clone, Copy, PartialEq, Eq, Debug)]
pub struct Field {
    pub noun_cluster: u32,
    pub ty: TypeShape,
}

#[derive(Clone, PartialEq, Eq, Debug)]
pub struct StructDecl {
    pub fields: Vec<Field>,
    /// True when the type adds an invariant, a unit of measure or renamed
    /// semantics over what it wraps.
    pub has_invariant: bool,
}

/// A required or provided method signature, reduced to its verb group
/// (get/set/validate/process and the like).
#[derive(Clone, Copy, PartialEq, Eq, Debug)]
pub struct MethodSig {
    pub verb_group: u32,
}

#[derive(Clone, PartialEq, Eq, Debug)]
pub struct TraitDecl {
    pub methods: Vec<MethodSig>,
    /// The noun the trait's verbs act on.
    pub semantic_root: u32,
    /// Declaration ids of supertraits; the hierarchy is an explicit graph.
    pub supertraits: Vec<usize>,
    /// True when the trait stands at a process or FFI boundary.
    pub crosses_boundary: bool,
    /// True when the trait is used only inside the crate under analysis.
    pub internal_only: bool,
}

#[derive(Clone, PartialEq, Eq, Debug)]
pub struct ImplBlock {
    /// Declaration id of the implementing type.
    pub self_decl: usize,
    /// Declaration id of the implemented trait, if any.
    pub trait_decl: Option<usize>,
    pub methods: Vec<MethodSig>,
}

/// A named lifetime parameter of a signature, normalized to what the
/// borrowing rules read.
#[derive(Clone, Copy, PartialEq, Eq, Debug)]
pub struct LifetimeParam {
    /// Occurrences across the whole signature.
    pub uses: u32,
    /// True when a declared outlives bound relates it to another
    /// parameter or to the return type.
    pub related: bool,
    /// True when removing the parameter and owning the value compiles
    /// under the implied elision rule.
    pub elidable: bool,
}

#[derive(Clone, Copy, PartialEq, Eq, Debug)]
pub struct Param {
    /// True when the parameter takes the value by ownership.
    pub owned: bool,
    /// True when the body stores or moves the value rather than reading it.
    pub consumed: bool,
    /// True when the parameter is a boxed trait object.
    pub is_trait_object: bool,
}

#[derive(Clone, Copy, PartialEq, Eq, Debug)]
pub struct GenericParam {
    /// Trait bounds declared on the parameter.
    pub bounds: u32,
    /// Of those, how many the body actually uses.
    pub bounds_used: u32,
    /// True when the parameter is never used beyond pass-through.
    pub passthrough_only: bool,
}

/// Shape of the error channel a function exposes.
#[derive(Clone, Copy, PartialEq, Eq, Debug)]
pub enum ErrorChannel {
    /// The function cannot fail.
    Infallible,
    /// A structured taxonomy that keeps the cause's identity.
    Structured,
    /// Plain text: the cause's identity is gone.
    Textual,
    /// An opaque boxed error: kinds cannot be told apart.
    Opaque,
}

#[derive(Clone, Copy, PartialEq, Eq, Debug)]
pub struct ReturnShape {
    /// True when the return value borrows from the inputs.
    pub is_borrow: bool,
    pub error_channel: ErrorChannel,
    /// Distinct failure sources flowing into the error channel.
    pub distinct_failure_kinds: u32,
}

/// What entry validation established about a pointer before an unsafe
/// operation reads it.
#[derive(Clone, Copy, PartialEq, Eq, Debug)]
pub enum PtrProvenance {
    /// Checked at entry (null and alignment tests precede the use).
    Validated,
    /// Nothing established.
    Unchecked,
    /// Built from a null or zeroed value: known invalid.
    KnownInvalid,
}

/// One coarse statement, sufficient for rule matching without executing
/// the analyzed code.
#[derive(Clone, Copy, PartialEq, Eq, Debug)]
pub enum StmtKind {
    /// Acquire the exclusive lock with the given id.
    LockAcquire { lock: u32 },
    /// Release it.
    LockRelease { lock: u32 },
    /// A suspension point: the task may yield to the scheduler here.
    Suspend,
    /// Spawn an independently scheduled task.
    Spawn { task: u32, in_loop: bool },
    /// Await or join the given task's result.
    Join { task: u32 },
    /// A bound is established: a bounded channel, a semaphore.
    CapacityBound,
    /// Blocking (non-suspending) i/o.
    BlockingIo,
    /// Suspending i/o, with or without an attached deadline.
    Io { has_deadline: bool },
    /// Mutation of the shared state with the given id, by the given task.
    SharedMutate { state: u32 },
    /// An explicit synchronization point.
    Sync,
    /// Invocation of another declaration of the unit.
    Call { callee: usize },
    /// A conditional branch.
    Branch,
    /// Dereference of a raw pointer. `documented` records an attached
    /// safety comment; `source_owner` tags the owner of the pointed-to
    /// data for staleness tracking.
    PtrDeref { documented: bool, provenance: PtrProvenance, source_owner: Option<u32> },
    /// Raw offset or pointer arithmetic.
    PtrArith { documented: bool, guarded: bool },
    /// Raw reinterpretation or a manual layout assumption.
    Reinterpret { documented: bool },
    /// A call across an FFI boundary; flags say whether a borrowed
    /// pointer/length pair is passed and whether its lifetime is tied to
    /// the call.
    FfiCall { passes_borrowed: bool, lifetime_tied: bool },
    /// A multiplication feeding a size or allocation calculation.
    SizeMul { checked: bool },
    /// The scope owning the data tagged `owner` ends here.
    ScopeEnd { owner: u32 },
    /// An error is converted to unstructured text.
    ErrorToText,
    /// An error is observed and dropped without logging or returning.
    ErrorDiscard,
    /// An error is re-raised with no added context.
    ErrorReraise,
    /// Unconditional abort (unwrap, panic) on an error value.
    AbortOnError,
    Return,
    Other,
}

#[derive(Clone, Copy, PartialEq, Eq, Debug)]
pub struct Stmt {
    pub kind: StmtKind,
    /// Lexical scope id.
    pub scope: u32,
    /// 0 for the function body; k > 0 for the k-th spawned task's body.
    pub task: u32,
}

#[derive(Clone, PartialEq, Eq, Debug)]
pub struct FunctionDecl {
    pub is_async: bool,
    pub is_unsafe: bool,
    pub is_public: bool,
    /// True when the function stands on a reachable request path.
    pub is_request_path: bool,
    /// True for one-time startup or configuration code.
    pub is_startup: bool,
    pub params: Vec<Param>,
    pub generics: Vec<GenericParam>,
    pub lifetimes: Vec<LifetimeParam>,
    pub ret: ReturnShape,
    /// Indices into `lifetimes` that the returned borrow is bound to.
    pub ret_bound_lifetimes: Vec<usize>,
    /// True when the body builds a heterogeneous collection of trait
    /// objects.
    pub builds_heterogeneous: bool,
    pub stmts: Vec<Stmt>,
}

#[derive(Clone, Copy, PartialEq, Eq, Debug)]
pub struct EnumDecl {
    /// True when the enum is an error taxonomy.
    pub is_error_type: bool,
    pub variants: u32,
    /// True when variants carry the original cause.
    pub carries_cause: bool,
    /// True when a predicate or variant lets callers tell recoverable
    /// from fatal.
    pub has_recoverability_predicate: bool,
}

/// A declaration of the unit: the tagged variants of the data model.
#[derive(Clone, PartialEq, Eq, Debug)]
pub enum Declaration {
    Struct(StructDecl),
    Trait(TraitDecl),
    Impl(ImplBlock),
    Function(FunctionDecl),
    Enum(EnumDecl),
}

/// Raw input that cannot be reduced to valid declarations.
#[derive(Clone, Copy, PartialEq, Eq, Debug)]
pub enum ModelConstructionError {
    /// A declaration refers to a declaration id outside the unit.
    DanglingReference { decl: usize },
    /// An impl block names a self type or trait that is not of the right
    /// declaration kind.
    BadImplTarget { decl: usize },
    /// A returned borrow names a lifetime index outside the signature,
    /// or names one twice.
    BadLifetimeBinding { decl: usize },
    /// A statement carries a lock, task, state or owner tag outside the
    /// normalized id range.
    BadStatementTag { decl: usize },
}

// --- well-formedness -------------------------------------------------

pub open spec fn type_shape_wf(t: TypeShape, n: int) -> bool {
    match t {
        TypeShape::Named { decl } => decl < n,
        TypeShape::SharedHandle { decl } => decl < n,
        TypeShape::TraitObject { trait_decl } => match trait_decl {
            Option::Some(t) => t < n,
            Option::None => true,
        },
        TypeShape::Reference { pointee_owner } => match pointee_owner {
            Option::Some(o) => o < n,
            Option::None => true,
        },
        TypeShape::RawPointer { pointee_owner } => match pointee_owner {
            Option::Some(o) => o < n,
            Option::None => true,
        },
        _ => true,
    }
}

pub open spec fn struct_wf(s: StructDecl, n: int) -> bool {
    forall|i: int| 0 <= i < s.fields@.len() ==> type_shape_wf(#[trigger] s.fields@[i].ty, n)
}

pub open spec fn trait_wf(t: TraitDecl, n: int) -> bool {
    forall|i: int| 0 <= i < t.supertraits@.len() ==> #[trigger] t.supertraits@[i] < n
}

pub open spec fn impl_wf(im: ImplBlock, n: int) -> bool {
    &&& im.self_decl < n
    &&& match im.trait_decl {
        Option::Some(t) => t < n,
        Option::None => true,
    }
}

/// Statement tags (locks, tasks, shared-state ids, owner tags) are
/// normalized to small dense ids, below the statement count.
pub open spec fn stmt_wf(s: Stmt, n_stmts: int, n_decls: int) -> bool {
    match s.kind {
        StmtKind::LockAcquire { lock } => lock < n_stmts,
        StmtKind::LockRelease { lock } => lock < n_stmts,
        StmtKind::Spawn { task, in_loop } => task < n_stmts,
        StmtKind::Join { task } => task < n_stmts,
        StmtKind::SharedMutate { state } => state < n_stmts,
        StmtKind::Call { callee } => callee < n_decls,
        StmtKind::ScopeEnd { owner } => owner < n_stmts,
        _ => true,
    }
}

pub open spec fn fn_wf(f: FunctionDecl, n: int) -> bool {
    &&& forall|i: int|
        0 <= i < f.ret_bound_lifetimes@.len() ==> #[trigger] f.ret_bound_lifetimes@[i]
            < f.lifetimes@.len()
    &&& forall|i: int, j: int|
        0 <= i < j < f.ret_bound_lifetimes@.len() ==> f.ret_bound_lifetimes@[i]
            != f.ret_bound_lifetimes@[j]
    &&& forall|i: int|
        0 <= i < f.stmts@.len() ==> stmt_wf(#[trigger] f.stmts@[i], f.stmts@.len() as int, n)
}

pub open spec fn decl_wf(d: Declaration, n: int) -> bool {
    match d {
        Declaration::Struct(s) => struct_wf(s, n),
        Declaration::Trait(t) => trait_wf(t, n),
        Declaration::Impl(im) => impl_wf(im, n),
        Declaration::Function(f) => fn_wf(f, n),
        Declaration::Enum(e) => true,
    }
}

pub open spec fn decls_wf(decls: Seq<Declaration>) -> bool {
    forall|i: int| 0 <= i < decls.len() ==> decl_wf(#[trigger] decls[i], decls.len() as int)
}

/// One compilation unit: an ordered, read-only sequence of declarations.
#[derive(Clone, PartialEq, Eq, Debug)]
pub struct CompilationUnit {
    pub decls: Vec<Declaration>,
}

impl CompilationUnit {
    pub open spec fn wf(self) -> bool {
        decls_wf(self.decls@)
    }

    /// Number of declarations in the unit.
    pub fn decl_count(&self) -> (n: usize)
        ensures
            n == self.decls@.len(),
    {
        self.decls.len()
    }

    /// Fetch a declaration by id.
    pub fn get_decl(&self, id: usize) -> (d: &Declaration)
        requires
            id < self.decls@.len(),
        ensures
            *d == self.decls@[id as int],
    {
        &self.decls[id]
    }

    /// Resolve a trait's direct supertraits: the explicit hierarchy graph
    /// the depth checks walk.
    pub fn supertraits_of(&self, id: usize) -> (r: Option<&Vec<usize>>)
        requires
            id < self.decls@.len(),
        ensures
            self.decls@[id as int] matches Declaration::Trait(t) ==> (r matches Some(v) && v@
                == t.supertraits@),
            !(self.decls@[id as int] is Trait) ==> r is None,
    {
        match &self.decls[id] {
            Declaration::Trait(t) => Option::Some(&t.supertraits),
            _ => Option::None,
        }
    }

    /// Reduce raw declarations to a validated unit. Succeeds exactly when
    /// every cross-reference resolves and every statement tag is in its
    /// normalized range; downstream detectors never observe a partial or
    /// invalid unit.
    pub fn new(decls: Vec<Declaration>) -> (r: Result<CompilationUnit, ModelConstructionError>)
        ensures
            r is Ok <==> decls_wf(decls@),
            r matches Ok(u) ==> u.decls == decls && u.wf(),
    {
        let n = decls.len();
        let mut i: usize = 0;
        while i < n
            invariant
                n == decls@.len(),
                i <= n,
                forall|k: int| 0 <= k < i ==> decl_wf(#[trigger] decls@[k], n as int),
            decreases n - i,
        {
            match check_decl(&decls[i], n) {
                Ok(()) => {},
                Err(kind) => {
                    return Err(
                        match kind {
                            0u32 => ModelConstructionError::DanglingReference { decl: i },
                            1u32 => ModelConstructionError::BadImplTarget { decl: i },
                            2u32 => ModelConstructionError::BadLifetimeBinding { decl: i },
                            _ => ModelConstructionError::BadStatementTag { decl: i },
                        },
                    );
                },
            }
            i = i + 1;
        }
        Ok(CompilationUnit { decls })
    }
}

fn check_type_shape(t: &TypeShape, n: usize) -> (b: bool)
    ensures
        b == type_shape_wf(*t, n as int),
{
    match t {
        TypeShape::Named { decl } => *decl < n,
        TypeShape::SharedHandle { decl } => *decl < n,
        TypeShape::TraitObject { trait_decl } => match trait_decl {
            Option::Some(td) => *td < n,
            Option::None => true,
        },
        TypeShape::Reference { pointee_owner } => match pointee_owner {
            Option::Some(o) => *o < n,
            Option::None => true,
        },
        TypeShape::RawPointer { pointee_owner } => match pointee_owner {
            Option::Some(o) => *o < n,
            Option::None => true,
        },
        _ => true,
    }
}

fn check_stmt(s: &Stmt, n_stmts: usize, n_decls: usize) -> (b: bool)
    ensures
        b == stmt_wf(*s, n_stmts as int, n_decls as int),
{
    match s.kind {
        StmtKind::LockAcquire { lock } => (lock as usize) < n_stmts,
        StmtKind::LockRelease { lock } => (lock as usize) < n_stmts,
        StmtKind::Spawn { task, in_loop } => (task as usize) < n_stmts,
        StmtKind::Join { task } => (task as usize) < n_stmts,
        StmtKind::SharedMutate { state } => (state as usize) < n_stmts,
        StmtKind::Call { callee } => callee < n_decls,
        StmtKind::ScopeEnd { owner } => (owner as usize) < n_stmts,
        _ => true,
    }
}

/// Validate one declaration; the error code picks the construction-error
/// variant.
fn check_decl(d: &Declaration, n: usize) -> (r: Result<(), u32>)
    ensures
        r is Ok <==> decl_wf(*d, n as int),
{
    match d {
        Declaration::Struct(s) => {
            let nf = s.fields.len();
            let mut i: usize = 0;
            while i < nf
                invariant
                    nf == s.fields@.len(),
                    i <= nf,
                    forall|k: int| 0 <= k < i ==> type_shape_wf(#[trigger] s.fields@[k].ty, n as int),
                decreases nf - i,
            {
                if !check_type_shape(&s.fields[i].ty, n) {
                    return Err(0);
                }
                i = i + 1;
            }
            Ok(())
        },
        Declaration::Trait(t) => {
            let ns = t.supertraits.len();
            let mut i: usize = 0;
            while i < ns
                invariant
                    ns == t.supertraits@.len(),
                    i <= ns,
                    forall|k: int| 0 <= k < i ==> #[trigger] t.supertraits@[k] < n,
                decreases ns - i,
            {
                if t.supertraits[i] >= n {
                    return Err(0);
                }
                i = i + 1;
            }
            Ok(())
        },
        Declaration::Impl(im) => {
            if im.self_decl >= n {
                return Err(1);
            }
            match im.trait_decl {
                Option::Some(t) => {
                    if t >= n {
                        return Err(1);
                    }
                },
                Option::None => {},
            }
            Ok(())
        },
        Declaration::Function(f) => {
            let nl = f.ret_bound_lifetimes.len();
            let mut i: usize = 0;
            while i < nl
                invariant
                    nl == f.ret_bound_lifetimes@.len(),
                    i <= nl,
                    forall|k: int|
                        0 <= k < i ==> #[trigger] f.ret_bound_lifetimes@[k] < f.lifetimes@.len(),
                    forall|k: int, l: int|
                        0 <= k < l < i ==> f.ret_bound_lifetimes@[k] != f.ret_bound_lifetimes@[l],
                decreases nl - i,
            {
                if f.ret_bound_lifetimes[i] >= f.lifetimes.len() {
                    return Err(2);
                }
                let mut j: usize = 0;
                while j < i
                    invariant
                        i < nl,
                        nl == f.ret_bound_lifetimes@.len(),
                        j <= i,
                        forall|k: int|
                            0 <= k < j ==> f.ret_bound_lifetimes@[k]
                                != f.ret_bound_lifetimes@[i as int],
                    decreases i - j,
                {
                    if f.ret_bound_lifetimes[j] == f.ret_bound_lifetimes[i] {
                        return Err(2);
                    }
                    j = j + 1;
                }
                i = i + 1;
            }
            let nst = f.stmts.len();
            let mut i: usize = 0;
            while i < nst
                invariant
                    nst == f.stmts@.len(),
                    i <= nst,
                    forall|k: int|
                        0 <= k < i ==> stmt_wf(#[trigger] f.stmts@[k], nst as int, n as int),
                decreases nst - i,
            {
                if !check_stmt(&f.stmts[i], nst, n) {
                    return Err(3);
                }
                i = i + 1;
            }
            Ok(())
        },
        Declaration::Enum(e) => Ok(()),
    }
}

// --- shared traversal helpers -----------------------------------------

/// How many impl blocks among the first `upto` declarations implement the
/// trait declared at `t`.
pub open spec fn impl_count(decls: Seq<Declaration>, t: int, upto: int) -> nat
    decreases upto,
{
    if upto <= 0 {
        0nat
    } else {
        impl_count(decls, t, upto - 1) + (if decls[upto - 1] matches Declaration::Impl(im)
            && im.trait_decl == Option::Some(t as usize) {
            1nat
        } else {
            0nat
        })
    }
}

/// Whether the trait declared at `t` has exactly `m` implementors in the
/// unit.
pub fn impl_count_eq(u: &CompilationUnit, t: usize, m: usize) -> (b: bool)
    ensures
        b == (impl_count(u.decls@, t as int, u.decls@.len() as int) == m),
{
    let n = u.decls.len();
    let mut count: usize = 0;
    let mut i: usize = 0;
    while i < n
        invariant
            i <= n,
            n == u.decls@.len(),
            count == impl_count(u.decls@, t as int, i as int),
            count <= i,
        decreases n - i,
    {
        let hit = match &u.decls[i] {
            Declaration::Impl(im) => match im.trait_decl {
                Option::Some(t2) => t2 == t,
                Option::None => false,
            },
            _ => false,
        };
        if hit {
            count = count + 1;
        }
        i = i + 1;
    }
    count == m
}

// --- shared helpers over sequences of small ids ----------------------

/// Number of distinct values among the first `upto` entries.
pub open spec fn distinct_upto(s: Seq<u32>, upto: int) -> int
    decreases upto,
{
    if upto <= 0 {
        0
    } else {
        distinct_upto(s, upto - 1) + if s.take(upto - 1).contains(s[upto - 1]) {
            0int
        } else {
            1int
        }
    }
}

pub open spec fn distinct_count(s: Seq<u32>) -> int {
    distinct_upto(s, s.len() as int)
}

proof fn lemma_distinct_upto_bounds(s: Seq<u32>, upto: int)
    requires
        0 <= upto <= s.len(),
    ensures
        0 <= distinct_upto(s, upto) <= upto,
    decreases upto,
{
    if upto > 0 {
        lemma_distinct_upto_bounds(s, upto - 1);
    }
}

/// Count distinct values in a vector of ids.
pub fn count_distinct(v: &Vec<u32>) -> (n: usize)
    ensures
        n == distinct_count(v@),
{
    let len = v.len();
    let mut n: usize = 0;
    let mut i: usize = 0;
    while i < len
        invariant
            len == v@.len(),
            i <= len,
            n == distinct_upto(v@, i as int),
            n <= i,
        decreases len - i,
    {
        let mut seen = false;
        let mut j: usize = 0;
        while j < i
            invariant
                i < len,
                len == v@.len(),
                j <= i,
                seen == v@.take(i as int).take(j as int).contains(v@[i as int]),
            decreases i - j,
        {
            proof {
                assert(v@.take(i as int).take(j as int).push(v@.take(i as int)[j as int])
                    =~= v@.take(i as int).take(j + 1));
            }
            if v[j] == v[i] {
                seen = true;
                proof {
                    assert(v@.take(i as int).take(j + 1)[j as int] == v@[i as int]);
                }
            }
            j = j + 1;
        }
        proof {
            assert(v@.take(i as int).take(i as int) =~= v@.take(i as int));
            lemma_distinct_upto_bounds(v@, i as int);
        }
        if !seen {
            n = n + 1;
        }
        i = i + 1;
    }
    n
}

} // verus!
