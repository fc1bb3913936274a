//! The architecture detector: god entities, over-layering, trait-per-verb
//! explosions, needless nesting, fat interfaces, concrete coupling,
//! composition cycles, single-implementor traits, and newtypes without
//! semantics.

use vstd::prelude::*;
use crate::model::{
    CompilationUnit, Declaration, FunctionDecl, StructDecl, TraitDecl, StmtKind, TypeShape,
    impl_count, impl_count_eq, distinct_count, count_distinct,
};
use crate::config::AnalysisConfig;
use crate::finding::{
    decl_finding, Finding, Domain, Severity, Confidence, RULE_GOD_ENTITY, RULE_OVER_LAYERING,
    RULE_TRAIT_PER_VERB, RULE_UNNECESSARY_NESTING, RULE_FAT_INTERFACE, RULE_CONCRETE_COUPLING,
    RULE_CYCLIC_COMPOSITION, RULE_SINGLE_IMPLEMENTOR, RULE_NEWTYPE_NO_SEMANTICS,
};
use crate::graph;

verus! {

// --- rule 10: god entity -----------------------------------------------

/// Methods a type gains from the impl blocks of the unit.
pub open spec fn methods_of(decls: Seq<Declaration>, d: int, upto: int) -> nat
    decreases upto,
{
    if upto <= 0 {
        0nat
    } else {
        methods_of(decls, d, upto - 1) + (match decls[upto - 1] {
            Declaration::Impl(im) => if im.self_decl == d as usize {
                im.methods@.len()
            } else {
                0nat
            },
            _ => 0nat,
        })
    }
}

/// The domain-noun clusters of a struct's fields.
pub open spec fn cluster_seq(s: StructDecl) -> Seq<u32> {
    Seq::new(s.fields@.len(), |i: int| s.fields@[i].noun_cluster)
}

/// Field count, method count and cluster spread all above threshold.
pub open spec fn god_fires(u: CompilationUnit, cfg: AnalysisConfig, s: StructDecl, d: int) -> bool {
    &&& s.fields@.len() > cfg.god_fields
    &&& methods_of(u.decls@, d, u.decls@.len() as int) > cfg.god_methods
    &&& distinct_count(cluster_seq(s)) >= cfg.god_clusters
}

/// Confidence starts Possible; a corroborating secondary signal, a
/// cluster spread strictly above the threshold, upgrades it to Likely.
pub open spec fn god_confidence(cfg: AnalysisConfig, s: StructDecl) -> Confidence {
    if distinct_count(cluster_seq(s)) > cfg.god_clusters {
        Confidence::Likely
    } else {
        Confidence::Possible
    }
}

// --- rule 11: over-layering ----------------------------------------------

pub open spec fn call_count(f: FunctionDecl, upto: int) -> nat
    decreases upto,
{
    if upto <= 0 {
        0nat
    } else {
        call_count(f, upto - 1) + (if f.stmts@[upto - 1].kind matches StmtKind::Call { callee } {
            1nat
        } else {
            0nat
        })
    }
}

/// The callee of a call statement.
pub open spec fn callee_of(k: StmtKind) -> Option<usize> {
    match k {
        StmtKind::Call { callee } => Option::Some(callee),
        _ => Option::None,
    }
}

/// Each component invoked exactly once: no two calls share a callee.
pub open spec fn calls_distinct(f: FunctionDecl) -> bool {
    forall|i: int, j: int|
        0 <= i < j < f.stmts@.len() && callee_of((#[trigger] f.stmts@[i]).kind) is Some
            && callee_of((#[trigger] f.stmts@[j]).kind) is Some ==> callee_of(f.stmts@[i].kind)
            != callee_of(f.stmts@[j].kind)
}

pub open spec fn has_branch(f: FunctionDecl) -> bool {
    exists|j: int| 0 <= j < f.stmts@.len() && (#[trigger] f.stmts@[j]).kind is Branch
}

/// A strictly sequential chain of single-purpose components, each invoked
/// exactly once, with no branching.
pub open spec fn layering_fires(f: FunctionDecl, cfg: AnalysisConfig) -> bool {
    &&& call_count(f, f.stmts@.len() as int) >= cfg.layer_min_calls
    &&& calls_distinct(f)
    &&& !has_branch(f)
}

// --- rule 12: trait-per-verb explosion -------------------------------------

pub open spec fn is_single_verb_trait(dcl: Declaration, root: u32) -> bool {
    dcl matches Declaration::Trait(t) && t.methods@.len() == 1 && t.semantic_root == root
}

pub open spec fn single_verb_count(decls: Seq<Declaration>, root: u32, upto: int) -> nat
    decreases upto,
{
    if upto <= 0 {
        0nat
    } else {
        single_verb_count(decls, root, upto - 1) + (if is_single_verb_trait(
            decls[upto - 1],
            root,
        ) {
            1nat
        } else {
            0nat
        })
    }
}

/// Enough single-method traits share this trait's semantic root; the
/// finding lands on the group's first trait, once.
pub open spec fn verb_fires(u: CompilationUnit, cfg: AnalysisConfig, t: TraitDecl, d: int) -> bool {
    &&& t.methods@.len() == 1
    &&& single_verb_count(u.decls@, t.semantic_root, u.decls@.len() as int) >= cfg.verb_trait_min
    &&& forall|e: int| 0 <= e < d ==> !is_single_verb_trait(#[trigger] u.decls@[e], t.semantic_root)
}

// --- rule 13: unnecessary nesting ---------------------------------------------

/// A struct whose sole field is itself a single-field struct, neither
/// layer adding an invariant or renamed semantics.
pub open spec fn nesting_fires(u: CompilationUnit, s: StructDecl, d: int) -> bool {
    &&& s.fields@.len() == 1
    &&& !s.has_invariant
    &&& s.fields@[0].ty matches TypeShape::Named { decl: t }
    &&& t < u.decls@.len()
    &&& u.decls@[t as int] matches Declaration::Struct(inner)
    &&& inner.fields@.len() == 1
    &&& !inner.has_invariant
}

// --- rule 14: fat interface ----------------------------------------------------

pub open spec fn verb_seq(t: TraitDecl) -> Seq<u32> {
    Seq::new(t.methods@.len(), |i: int| t.methods@[i].verb_group)
}

pub open spec fn fat_fires(t: TraitDecl, cfg: AnalysisConfig) -> bool {
    &&& t.methods@.len() >= cfg.fat_methods
    &&& distinct_count(verb_seq(t)) >= cfg.fat_verb_groups
}

// --- rule 15: concrete coupling --------------------------------------------------

/// A concrete external-service field beside abstract sibling fields.
pub open spec fn coupling_fires(s: StructDecl) -> bool {
    &&& exists|i: int| 0 <= i < s.fields@.len() && (#[trigger] s.fields@[i]).ty is ExternalService
    &&& exists|i: int|
        0 <= i < s.fields@.len() && (#[trigger] s.fields@[i]).ty matches TypeShape::TraitObject {
            ..
        }
}

// --- rule 16: cyclic composition ---------------------------------------------------

/// The field-reference edge: struct `a` holds (directly or through a
/// shared-ownership handle) the type declared at `b`.
pub open spec fn comp_edge(u: CompilationUnit, a: int, b: int) -> bool {
    &&& 0 <= a < u.decls@.len()
    &&& u.decls@[a] matches Declaration::Struct(s)
    &&& exists|i: int|
        0 <= i < s.fields@.len() && (match (#[trigger] s.fields@[i]).ty {
            TypeShape::Named { decl } => decl as int == b,
            TypeShape::SharedHandle { decl } => decl as int == b,
            _ => false,
        })
}

pub open spec fn comp_edge_fn(u: CompilationUnit) -> spec_fn(int, int) -> bool {
    |x: int, y: int| comp_edge(u, x, y)
}

/// Declaration `d` lies on a composition cycle.
pub open spec fn comp_on_cycle(u: CompilationUnit, d: int) -> bool {
    graph::cycle_pred(u.decls@.len() as int, comp_edge_fn(u), d)
}

// --- rule 17: single-implementor trait ----------------------------------------------

pub open spec fn single_impl_fires(u: CompilationUnit, t: TraitDecl, d: int) -> bool {
    !t.crosses_boundary && impl_count(u.decls@, d, u.decls@.len() as int) == 1
}

// --- rule 18: newtype without semantics ------------------------------------------------

/// A single-field wrapper around a generic value container, adding no
/// invariant or unit of measure; a wrapper around a primitive is the good
/// twin and is not flagged.
pub open spec fn newtype_fires(s: StructDecl) -> bool {
    &&& s.fields@.len() == 1
    &&& s.fields@[0].ty is GenericContainer
    &&& !s.has_invariant
}

// --- the findings the detector emits --------------------------------------------

pub open spec fn arch_struct_findings(
    u: CompilationUnit,
    cfg: AnalysisConfig,
    s: StructDecl,
    d: int,
) -> Seq<Finding> {
    (if god_fires(u, cfg, s, d) {
        seq![
            decl_finding(
                RULE_GOD_ENTITY,
                Domain::Architecture,
                Severity::Critical,
                god_confidence(cfg, s),
                d,
            ),
        ]
    } else {
        seq![]
    }) + (if nesting_fires(u, s, d) {
        seq![
            decl_finding(
                RULE_UNNECESSARY_NESTING,
                Domain::Architecture,
                Severity::Warning,
                Confidence::Possible,
                d,
            ),
        ]
    } else {
        seq![]
    }) + (if coupling_fires(s) {
        seq![
            decl_finding(
                RULE_CONCRETE_COUPLING,
                Domain::Architecture,
                Severity::Warning,
                Confidence::Possible,
                d,
            ),
        ]
    } else {
        seq![]
    }) + (if comp_on_cycle(u, d) {
        seq![
            decl_finding(
                RULE_CYCLIC_COMPOSITION,
                Domain::Architecture,
                Severity::Critical,
                Confidence::Likely,
                d,
            ),
        ]
    } else {
        seq![]
    }) + (if newtype_fires(s) {
        seq![
            decl_finding(
                RULE_NEWTYPE_NO_SEMANTICS,
                Domain::Architecture,
                Severity::Info,
                Confidence::Possible,
                d,
            ),
        ]
    } else {
        seq![]
    })
}

pub open spec fn arch_fn_findings(f: FunctionDecl, cfg: AnalysisConfig, d: int) -> Seq<Finding> {
    if layering_fires(f, cfg) {
        seq![
            decl_finding(
                RULE_OVER_LAYERING,
                Domain::Architecture,
                Severity::Warning,
                Confidence::Possible,
                d,
            ),
        ]
    } else {
        seq![]
    }
}

pub open spec fn arch_trait_findings(
    u: CompilationUnit,
    cfg: AnalysisConfig,
    t: TraitDecl,
    d: int,
) -> Seq<Finding> {
    (if verb_fires(u, cfg, t, d) {
        seq![
            decl_finding(
                RULE_TRAIT_PER_VERB,
                Domain::Architecture,
                Severity::Warning,
                Confidence::Likely,
                d,
            ),
        ]
    } else {
        seq![]
    }) + (if fat_fires(t, cfg) {
        seq![
            decl_finding(
                RULE_FAT_INTERFACE,
                Domain::Architecture,
                Severity::Warning,
                Confidence::Likely,
                d,
            ),
        ]
    } else {
        seq![]
    }) + (if single_impl_fires(u, t, d) {
        seq![
            decl_finding(
                RULE_SINGLE_IMPLEMENTOR,
                Domain::Architecture,
                Severity::Warning,
                Confidence::Possible,
                d,
            ),
        ]
    } else {
        seq![]
    })
}

pub open spec fn arch_decl_findings(u: CompilationUnit, cfg: AnalysisConfig, d: int) -> Seq<
    Finding,
> {
    match u.decls@[d] {
        Declaration::Struct(s) => arch_struct_findings(u, cfg, s, d),
        Declaration::Function(f) => arch_fn_findings(f, cfg, d),
        Declaration::Trait(t) => arch_trait_findings(u, cfg, t, d),
        _ => seq![],
    }
}

pub open spec fn arch_findings_upto(u: CompilationUnit, cfg: AnalysisConfig, upto: int) -> Seq<
    Finding,
>
    decreases upto,
{
    if upto <= 0 {
        seq![]
    } else {
        arch_findings_upto(u, cfg, upto - 1) + arch_decl_findings(u, cfg, upto - 1)
    }
}

/// The architecture detector's findings for a whole unit.
pub open spec fn arch_findings(u: CompilationUnit, cfg: AnalysisConfig) -> Seq<Finding> {
    arch_findings_upto(u, cfg, u.decls@.len() as int)
}

// --- executable matchers ---------------------------------------------------

proof fn lemma_methods_of_mono(decls: Seq<Declaration>, d: int, a: int, b: int)
    requires
        0 <= a <= b,
    ensures
        methods_of(decls, d, a) <= methods_of(decls, d, b),
    decreases b,
{
    if a < b {
        lemma_methods_of_mono(decls, d, a, b - 1);
    }
}

/// Does the type declared at `d` gain more than `m` methods from the
/// unit's impl blocks?
fn methods_more_than(u: &CompilationUnit, d: usize, m: u32) -> (r: bool)
    ensures
        r == (methods_of(u.decls@, d as int, u.decls@.len() as int) > m),
{
    let n = u.decls.len();
    let mut acc: u64 = 0;
    let mut i: usize = 0;
    while i < n
        invariant
            i <= n,
            n == u.decls@.len(),
            acc == methods_of(u.decls@, d as int, i as int),
            acc <= m,
        decreases n - i,
    {
        let add: usize = match &u.decls[i] {
            Declaration::Impl(im) => {
                if im.self_decl == d {
                    im.methods.len()
                } else {
                    0
                }
            },
            _ => 0,
        };
        if add as u64 > m as u64 {
            proof {
                lemma_methods_of_mono(u.decls@, d as int, i + 1, n as int);
            }
            return true;
        }
        if acc + (add as u64) > m as u64 {
            proof {
                lemma_methods_of_mono(u.decls@, d as int, i + 1, n as int);
            }
            return true;
        }
        acc = acc + (add as u64);
        i = i + 1;
    }
    false
}

fn god_at(u: &CompilationUnit, cfg: &AnalysisConfig, s: &StructDecl, d: usize) -> (r: (
    bool,
    Confidence,
))
    ensures
        r.0 == god_fires(*u, *cfg, *s, d as int),
        r.1 == god_confidence(*cfg, *s),
{
    let nf = s.fields.len();
    let mut clusters: Vec<u32> = Vec::new();
    let mut i: usize = 0;
    while i < nf
        invariant
            i <= nf,
            nf == s.fields@.len(),
            clusters@ == cluster_seq(*s).take(i as int),
        decreases nf - i,
    {
        clusters.push(s.fields[i].noun_cluster);
        proof {
            assert(clusters@ =~= cluster_seq(*s).take(i + 1));
        }
        i = i + 1;
    }
    proof {
        assert(cluster_seq(*s).take(nf as int) =~= cluster_seq(*s));
    }
    let spread = count_distinct(&clusters);
    let conf = if spread as u64 > cfg.god_clusters as u64 {
        Confidence::Likely
    } else {
        Confidence::Possible
    };
    let fires = nf as u64 > cfg.god_fields as u64 && spread as u64 >= cfg.god_clusters as u64
        && methods_more_than(u, d, cfg.god_methods);
    (fires, conf)
}

fn layering_at(f: &FunctionDecl, cfg: &AnalysisConfig) -> (r: bool)
    ensures
        r == layering_fires(*f, *cfg),
{
    let n = f.stmts.len();
    let mut count: usize = 0;
    let mut i: usize = 0;
    while i < n
        invariant
            i <= n,
            n == f.stmts@.len(),
            count == call_count(*f, i as int),
            count <= i,
        decreases n - i,
    {
        let is_call = match f.stmts[i].kind {
            StmtKind::Call { callee } => true,
            _ => false,
        };
        if is_call {
            count = count + 1;
        }
        i = i + 1;
    }
    if (count as u64) < (cfg.layer_min_calls as u64) {
        return false;
    }
    // no branch anywhere
    let mut i: usize = 0;
    while i < n
        invariant
            i <= n,
            n == f.stmts@.len(),
            forall|q: int| 0 <= q < i ==> !((#[trigger] f.stmts@[q]).kind is Branch),
        decreases n - i,
    {
        let is_branch = match f.stmts[i].kind {
            StmtKind::Branch => true,
            _ => false,
        };
        if is_branch {
            return false;
        }
        i = i + 1;
    }
    // no two calls share a callee
    let mut j: usize = 0;
    while j < n
        invariant
            j <= n,
            n == f.stmts@.len(),
            forall|p: int, q: int|
                0 <= p < q < j && callee_of((#[trigger] f.stmts@[p]).kind) is Some && callee_of(
                    (#[trigger] f.stmts@[q]).kind,
                ) is Some ==> callee_of(f.stmts@[p].kind) != callee_of(f.stmts@[q].kind),
        decreases n - j,
    {
        let cj: Option<usize> = match f.stmts[j].kind {
            StmtKind::Call { callee } => Option::Some(callee),
            _ => Option::None,
        };
        match cj {
            Option::Some(c2) => {
                let mut p: usize = 0;
                while p < j
                    invariant
                        p <= j < n,
                        n == f.stmts@.len(),
                        callee_of(f.stmts@[j as int].kind) == Option::Some(c2),
                        forall|q: int|
                            0 <= q < p ==> callee_of((#[trigger] f.stmts@[q]).kind)
                                != Option::Some(c2),
                    decreases j - p,
                {
                    let cp: Option<usize> = match f.stmts[p].kind {
                        StmtKind::Call { callee } => Option::Some(callee),
                        _ => Option::None,
                    };
                    match cp {
                        Option::Some(c1) => {
                            if c1 == c2 {
                                return false;
                            }
                        },
                        Option::None => {},
                    }
                    p = p + 1;
                }
            },
            Option::None => {},
        }
        j = j + 1;
    }
    true
}

fn verb_at(u: &CompilationUnit, cfg: &AnalysisConfig, t: &TraitDecl, d: usize) -> (r: bool)
    requires
        d < u.decls@.len(),
    ensures
        r == verb_fires(*u, *cfg, *t, d as int),
{
    if t.methods.len() != 1 {
        return false;
    }
    let n = u.decls.len();
    let root = t.semantic_root;
    let mut count: usize = 0;
    let mut i: usize = 0;
    while i < n
        invariant
            i <= n,
            n == u.decls@.len(),
            count == single_verb_count(u.decls@, root, i as int),
            count <= i,
        decreases n - i,
    {
        let hit = match &u.decls[i] {
            Declaration::Trait(t2) => t2.methods.len() == 1 && t2.semantic_root == root,
            _ => false,
        };
        if hit {
            count = count + 1;
        }
        i = i + 1;
    }
    if (count as u64) < (cfg.verb_trait_min as u64) {
        return false;
    }
    // first trait of its group
    let mut e: usize = 0;
    while e < d
        invariant
            e <= d < n,
            n == u.decls@.len(),
            forall|q: int| 0 <= q < e ==> !is_single_verb_trait(#[trigger] u.decls@[q], root),
        decreases d - e,
    {
        let hit = match &u.decls[e] {
            Declaration::Trait(t2) => t2.methods.len() == 1 && t2.semantic_root == root,
            _ => false,
        };
        if hit {
            return false;
        }
        e = e + 1;
    }
    true
}

fn nesting_at(u: &CompilationUnit, s: &StructDecl, d: usize) -> (r: bool)
    ensures
        r == nesting_fires(*u, *s, d as int),
{
    if s.fields.len() != 1 || s.has_invariant {
        return false;
    }
    let t = match s.fields[0].ty {
        TypeShape::Named { decl } => decl,
        _ => {
            return false;
        },
    };
    if t >= u.decls.len() {
        return false;
    }
    match &u.decls[t] {
        Declaration::Struct(inner) => inner.fields.len() == 1 && !inner.has_invariant,
        _ => false,
    }
}

fn fat_at(t: &TraitDecl, cfg: &AnalysisConfig) -> (r: bool)
    ensures
        r == fat_fires(*t, *cfg),
{
    if (t.methods.len() as u64) < (cfg.fat_methods as u64) {
        return false;
    }
    let nm = t.methods.len();
    let mut verbs: Vec<u32> = Vec::new();
    let mut i: usize = 0;
    while i < nm
        invariant
            i <= nm,
            nm == t.methods@.len(),
            verbs@ == verb_seq(*t).take(i as int),
        decreases nm - i,
    {
        verbs.push(t.methods[i].verb_group);
        proof {
            assert(verbs@ =~= verb_seq(*t).take(i + 1));
        }
        i = i + 1;
    }
    proof {
        assert(verb_seq(*t).take(nm as int) =~= verb_seq(*t));
    }
    let spread = count_distinct(&verbs);
    spread as u64 >= cfg.fat_verb_groups as u64
}

fn coupling_at(s: &StructDecl) -> (r: bool)
    ensures
        r == coupling_fires(*s),
{
    let n = s.fields.len();
    let mut has_concrete = false;
    let mut has_abstract = false;
    let mut i: usize = 0;
    while i < n
        invariant
            i <= n,
            n == s.fields@.len(),
            has_concrete == exists|q: int|
                0 <= q < i && (#[trigger] s.fields@[q]).ty is ExternalService,
            has_abstract == exists|q: int|
                0 <= q < i && (#[trigger] s.fields@[q]).ty matches TypeShape::TraitObject { .. },
        decreases n - i,
    {
        match s.fields[i].ty {
            TypeShape::ExternalService => {
                has_concrete = true;
            },
            TypeShape::TraitObject { .. } => {
                has_abstract = true;
            },
            _ => {},
        }
        i = i + 1;
    }
    has_concrete && has_abstract
}

fn newtype_at(s: &StructDecl) -> (r: bool)
    ensures
        r == newtype_fires(*s),
{
    if s.fields.len() != 1 || s.has_invariant {
        return false;
    }
    match s.fields[0].ty {
        TypeShape::GenericContainer => true,
        _ => false,
    }
}

fn comp_edge_at(u: &CompilationUnit, a: usize, b: usize) -> (r: bool)
    requires
        a < u.decls@.len(),
    ensures
        r == comp_edge(*u, a as int, b as int),
{
    match &u.decls[a] {
        Declaration::Struct(s) => {
            let n = s.fields.len();
            let mut i: usize = 0;
            while i < n
                invariant
                    i <= n,
                    n == s.fields@.len(),
                    forall|q: int|
                        0 <= q < i ==> !(match (#[trigger] s.fields@[q]).ty {
                            TypeShape::Named { decl } => decl as int == b as int,
                            TypeShape::SharedHandle { decl } => decl as int == b as int,
                            _ => false,
                        }),
                decreases n - i,
            {
                let hit = match s.fields[i].ty {
                    TypeShape::Named { decl } => decl == b,
                    TypeShape::SharedHandle { decl } => decl == b,
                    _ => false,
                };
                if hit {
                    return true;
                }
                i = i + 1;
            }
            false
        },
        _ => false,
    }
}

/// Which declarations lie on a composition cycle.
fn comp_cycles(u: &CompilationUnit) -> (r: Vec<bool>)
    ensures
        r@.len() == u.decls@.len(),
        forall|x: int| 0 <= x < u.decls@.len() ==> (#[trigger] r@[x]) == comp_on_cycle(*u, x),
{
    let n = u.decls.len();
    let mut m: Vec<Vec<bool>> = Vec::new();
    let mut a: usize = 0;
    while a < n
        invariant
            a <= n,
            n == u.decls@.len(),
            m@.len() == a,
            forall|x: int| 0 <= x < a ==> (#[trigger] m@[x])@.len() == n,
            forall|x: int, y: int|
                0 <= x < a && 0 <= y < n ==> (#[trigger] m@[x]@[y]) == comp_edge(*u, x, y),
        decreases n - a,
    {
        let mut row: Vec<bool> = Vec::new();
        let mut b: usize = 0;
        while b < n
            invariant
                a < n,
                b <= n,
                n == u.decls@.len(),
                row@.len() == b,
                forall|y: int| 0 <= y < b ==> (#[trigger] row@[y]) == comp_edge(*u, a as int, y),
            decreases n - b,
        {
            row.push(comp_edge_at(u, a, b));
            b = b + 1;
        }
        m.push(row);
        a = a + 1;
    }
    let cycles = graph::cycle_nodes(&m);
    proof {
        assert forall|x: int| 0 <= x < n implies #[trigger] graph::on_cycle(m@, x) == comp_on_cycle(
            *u,
            x,
        ) by {
            assert forall|p: int, q: int|
                0 <= p < m@.len() && 0 <= q < m@.len() implies #[trigger] m@[p]@[q] == comp_edge_fn(
                *u,
            )(p, q) by {
                assert(comp_edge_fn(*u)(p, q) == comp_edge(*u, p, q));
            }
            graph::lemma_reaches_matrix_pred(m@, comp_edge_fn(*u), x, x, n as nat);
        }
    }
    let mut r: Vec<bool> = Vec::new();
    let mut i: usize = 0;
    while i < n
        invariant
            i <= n,
            n == u.decls@.len(),
            cycles@.len() == n,
            forall|x: int| 0 <= x < n ==> (#[trigger] cycles@[x]) == graph::on_cycle(m@, x),
            forall|x: int| 0 <= x < n ==> #[trigger] graph::on_cycle(m@, x) == comp_on_cycle(*u, x),
            r@.len() == i,
            forall|x: int| 0 <= x < i ==> (#[trigger] r@[x]) == comp_on_cycle(*u, x),
        decreases n - i,
    {
        r.push(cycles[i]);
        i = i + 1;
    }
    r
}

/// Run the architecture detector over a unit.
#[verifier::rlimit(60)]
pub fn detect_architecture(u: &CompilationUnit, cfg: &AnalysisConfig) -> (r: Vec<Finding>)
    requires
        u.wf(),
    ensures
        r@ == arch_findings(*u, *cfg),
{
    let n = u.decls.len();
    let cycles = comp_cycles(u);
    let mut out: Vec<Finding> = Vec::new();
    let mut d: usize = 0;
    while d < n
        invariant
            d <= n,
            n == u.decls@.len(),
            cycles@.len() == n,
            forall|x: int| 0 <= x < n ==> (#[trigger] cycles@[x]) == comp_on_cycle(*u, x),
            out@ == arch_findings_upto(*u, *cfg, d as int),
        decreases n - d,
    {
        match &u.decls[d] {
            Declaration::Struct(s) => {
                let (god, conf) = god_at(u, cfg, s, d);
                if god {
                    out.push(
                        Finding {
                            rule_id: RULE_GOD_ENTITY,
                            domain: Domain::Architecture,
                            severity: Severity::Critical,
                            confidence: conf,
                            decl: d,
                            stmt_offset: Option::None,
                        },
                    );
                }
                if nesting_at(u, s, d) {
                    out.push(
                        Finding {
                            rule_id: RULE_UNNECESSARY_NESTING,
                            domain: Domain::Architecture,
                            severity: Severity::Warning,
                            confidence: Confidence::Possible,
                            decl: d,
                            stmt_offset: Option::None,
                        },
                    );
                }
                if coupling_at(s) {
                    out.push(
                        Finding {
                            rule_id: RULE_CONCRETE_COUPLING,
                            domain: Domain::Architecture,
                            severity: Severity::Warning,
                            confidence: Confidence::Possible,
                            decl: d,
                            stmt_offset: Option::None,
                        },
                    );
                }
                if cycles[d] {
                    out.push(
                        Finding {
                            rule_id: RULE_CYCLIC_COMPOSITION,
                            domain: Domain::Architecture,
                            severity: Severity::Critical,
                            confidence: Confidence::Likely,
                            decl: d,
                            stmt_offset: Option::None,
                        },
                    );
                }
                if newtype_at(s) {
                    out.push(
                        Finding {
                            rule_id: RULE_NEWTYPE_NO_SEMANTICS,
                            domain: Domain::Architecture,
                            severity: Severity::Info,
                            confidence: Confidence::Possible,
                            decl: d,
                            stmt_offset: Option::None,
                        },
                    );
                }
            },
            Declaration::Function(f) => {
                if layering_at(f, cfg) {
                    out.push(
                        Finding {
                            rule_id: RULE_OVER_LAYERING,
                            domain: Domain::Architecture,
                            severity: Severity::Warning,
                            confidence: Confidence::Possible,
                            decl: d,
                            stmt_offset: Option::None,
                        },
                    );
                }
            },
            Declaration::Trait(t) => {
                if verb_at(u, cfg, t, d) {
                    out.push(
                        Finding {
                            rule_id: RULE_TRAIT_PER_VERB,
                            domain: Domain::Architecture,
                            severity: Severity::Warning,
                            confidence: Confidence::Likely,
                            decl: d,
                            stmt_offset: Option::None,
                        },
                    );
                }
                if fat_at(t, cfg) {
                    out.push(
                        Finding {
                            rule_id: RULE_FAT_INTERFACE,
                            domain: Domain::Architecture,
                            severity: Severity::Warning,
                            confidence: Confidence::Likely,
                            decl: d,
                            stmt_offset: Option::None,
                        },
                    );
                }
                if !t.crosses_boundary {
                    if impl_count_eq(u, d, 1) {
                        out.push(
                            Finding {
                                rule_id: RULE_SINGLE_IMPLEMENTOR,
                                domain: Domain::Architecture,
                                severity: Severity::Warning,
                                confidence: Confidence::Possible,
                                decl: d,
                                stmt_offset: Option::None,
                            },
                        );
                    }
                }
            },
            _ => {},
        }
        proof {
            assert(out@ =~= arch_findings_upto(*u, *cfg, d + 1));
        }
        d = d + 1;
    }
    out
}


// --- characterization and triage signal --------------------------------------

/// Every finding of the detector carries the Architecture domain, a
/// declaration id that resolves, and comes from its own declaration's
/// rule sequence.
/// Every element the detector emits about one declaration names that
/// declaration and the Architecture domain.
proof fn lemma_arch_decl_findings_shape(u: CompilationUnit, cfg: AnalysisConfig, d: int, k: int)
    requires
        0 <= k < arch_decl_findings(u, cfg, d).len(),
    ensures
        arch_decl_findings(u, cfg, d)[k].decl == d as usize,
        arch_decl_findings(u, cfg, d)[k].domain is Architecture,
{
    let c = arch_decl_findings(u, cfg, d);
    match u.decls@[d] {
        Declaration::Struct(s) => {
            let g = if god_fires(u, cfg, s, d) {
                seq![
                    decl_finding(
                        RULE_GOD_ENTITY,
                        Domain::Architecture,
                        Severity::Critical,
                        god_confidence(cfg, s),
                        d,
                    ),
                ]
            } else {
                seq![]
            };
            let ne = if nesting_fires(u, s, d) {
                seq![
                    decl_finding(
                        RULE_UNNECESSARY_NESTING,
                        Domain::Architecture,
                        Severity::Warning,
                        Confidence::Possible,
                        d,
                    ),
                ]
            } else {
                seq![]
            };
            let co = if coupling_fires(s) {
                seq![
                    decl_finding(
                        RULE_CONCRETE_COUPLING,
                        Domain::Architecture,
                        Severity::Warning,
                        Confidence::Possible,
                        d,
                    ),
                ]
            } else {
                seq![]
            };
            let cy = if comp_on_cycle(u, d) {
                seq![
                    decl_finding(
                        RULE_CYCLIC_COMPOSITION,
                        Domain::Architecture,
                        Severity::Critical,
                        Confidence::Likely,
                        d,
                    ),
                ]
            } else {
                seq![]
            };
            if k < g.len() {
                assert(c[k] == g[0]);
            } else if k < g.len() + ne.len() {
                assert(c[k] == ne[0]);
            } else if k < g.len() + ne.len() + co.len() {
                assert(c[k] == co[0]);
            } else if k < g.len() + ne.len() + co.len() + cy.len() {
                assert(c[k] == cy[0]);
            } else {
                assert(newtype_fires(s));
                assert(c[k] == decl_finding(
                    RULE_NEWTYPE_NO_SEMANTICS,
                    Domain::Architecture,
                    Severity::Info,
                    Confidence::Possible,
                    d,
                ));
            }
        },
        Declaration::Function(f) => {
            assert(c[k] == decl_finding(
                RULE_OVER_LAYERING,
                Domain::Architecture,
                Severity::Warning,
                Confidence::Possible,
                d,
            ));
        },
        Declaration::Trait(t) => {
            let ve = if verb_fires(u, cfg, t, d) {
                seq![
                    decl_finding(
                        RULE_TRAIT_PER_VERB,
                        Domain::Architecture,
                        Severity::Warning,
                        Confidence::Likely,
                        d,
                    ),
                ]
            } else {
                seq![]
            };
            let fa = if fat_fires(t, cfg) {
                seq![
                    decl_finding(
                        RULE_FAT_INTERFACE,
                        Domain::Architecture,
                        Severity::Warning,
                        Confidence::Likely,
                        d,
                    ),
                ]
            } else {
                seq![]
            };
            if k < ve.len() {
                assert(c[k] == ve[0]);
            } else if k < ve.len() + fa.len() {
                assert(c[k] == fa[0]);
            } else {
                assert(single_impl_fires(u, t, d));
                assert(c[k] == decl_finding(
                    RULE_SINGLE_IMPLEMENTOR,
                    Domain::Architecture,
                    Severity::Warning,
                    Confidence::Possible,
                    d,
                ));
            }
        },
        _ => {},
    }
}

pub proof fn lemma_arch_findings_decls(u: CompilationUnit, cfg: AnalysisConfig, upto: int)
    requires
        0 <= upto <= u.decls@.len(),
    ensures
        forall|k: int|
            0 <= k < arch_findings_upto(u, cfg, upto).len() ==> {
                let e = #[trigger] arch_findings_upto(u, cfg, upto)[k];
                &&& e.domain is Architecture
                &&& e.decl < upto
                &&& arch_decl_findings(u, cfg, e.decl as int).contains(e)
            },
    decreases upto,
{
    if upto > 0 {
        lemma_arch_findings_decls(u, cfg, upto - 1);
        let prev = arch_findings_upto(u, cfg, upto - 1);
        let cur = arch_decl_findings(u, cfg, upto - 1);
        assert forall|k: int|
            0 <= k < arch_findings_upto(u, cfg, upto).len() implies {
            let e = #[trigger] arch_findings_upto(u, cfg, upto)[k];
            &&& e.domain is Architecture
            &&& e.decl < upto
            &&& arch_decl_findings(u, cfg, e.decl as int).contains(e)
        } by {
            vstd::std_specs::vec::axiom_spec_len(&u.decls);
            let e = arch_findings_upto(u, cfg, upto)[k];
            if k < prev.len() {
                assert(e == prev[k]);
            } else {
                assert(e == cur[k - prev.len()]);
                lemma_arch_decl_findings_shape(u, cfg, upto - 1, k - prev.len());
                assert(arch_decl_findings(u, cfg, upto - 1).contains(e));
            }
        }
    }
}

/// The architecture triage signal of one declaration: field counts,
/// method counts, and call-chain lengths.
pub open spec fn arch_decl_sig(dcl: Declaration) -> nat {
    match dcl {
        Declaration::Struct(s) => s.fields@.len() as nat,
        Declaration::Trait(t) => t.methods@.len() + 1nat,
        Declaration::Impl(im) => im.methods@.len() + 1nat,
        Declaration::Function(f) => call_count(f, f.stmts@.len() as int),
        _ => 0nat,
    }
}

pub open spec fn arch_sig_upto(u: CompilationUnit, upto: int) -> nat
    decreases upto,
{
    if upto <= 0 {
        0nat
    } else {
        arch_sig_upto(u, upto - 1) + arch_decl_sig(u.decls@[upto - 1])
    }
}

/// The unit's architecture triage signal.
pub open spec fn arch_signal(u: CompilationUnit) -> nat {
    arch_sig_upto(u, u.decls@.len() as int)
}

proof fn lemma_arch_sig_upto_pos(u: CompilationUnit, d: int, upto: int)
    requires
        0 <= d < upto,
        arch_decl_sig(u.decls@[d]) > 0,
    ensures
        arch_sig_upto(u, upto) > 0,
    decreases upto,
{
    if d < upto - 1 {
        lemma_arch_sig_upto_pos(u, d, upto - 1);
    }
}

/// Router soundness, architecture half: a Critical architecture finding
/// forces a positive architecture signal.
pub proof fn lemma_arch_critical_needs_signal(u: CompilationUnit, cfg: AnalysisConfig, k: int)
    requires
        cfg.thresholds_wf(),
        0 <= k < arch_findings(u, cfg).len(),
        arch_findings(u, cfg)[k].severity is Critical,
    ensures
        arch_signal(u) > 0,
{
    let n = u.decls@.len() as int;
    lemma_arch_findings_decls(u, cfg, n);
    let e = arch_findings(u, cfg)[k];
    let d = e.decl as int;
    match u.decls@[d] {
        Declaration::Struct(s) => {
            assert(god_fires(u, cfg, s, d) || comp_on_cycle(u, d)) by {
                if !god_fires(u, cfg, s, d) && !comp_on_cycle(u, d) {
                    assert(arch_decl_findings(u, cfg, d).contains(e));
                    assert(false);
                }
            }
            if god_fires(u, cfg, s, d) {
                assert(s.fields@.len() >= 1);
            } else {
                graph::lemma_cycle_pred_has_edge(n, comp_edge_fn(u), d);
                let b = choose|b: int| #[trigger] comp_edge_fn(u)(d, b);
                assert(comp_edge(u, d, b));
                let i = choose|i: int|
                    0 <= i < s.fields@.len() && (match (#[trigger] s.fields@[i]).ty {
                        TypeShape::Named { decl } => decl as int == b,
                        TypeShape::SharedHandle { decl } => decl as int == b,
                        _ => false,
                    });
                assert(s.fields@.len() >= 1);
            }
            lemma_arch_sig_upto_pos(u, d, n);
        },
        _ => {
            assert(arch_decl_findings(u, cfg, d).contains(e));
            assert(false);
        },
    }
}

} // verus!
