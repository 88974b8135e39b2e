//! Static resolution.
//!
//! A single pre-order walk annotates every variable use, assignment, `this`
//! and `super` with the number of scopes between the use and its binding
//! (`None` meaning the global scope), and enforces the scope-related static
//! errors.  The walk is mirrored by spec functions over the statement and
//! expression images, so exactly which tree comes back, and which error is
//! reported on which input, is pinned down completely.

use vstd::prelude::*;

use crate::ast::{
    exprs_view_from, lemma_exprs_view_from, lemma_stmts_view_from, stmts_view_from, ExprSpec,
    Expression, Statement, StmtSpec,
};

verus! {

/// A resolution failure, carrying its message.
#[derive(Debug)]
pub enum ResolverError {
    Message(String),
}

/// The mathematical image of a resolution failure.
pub enum ResolverErrorSpec {
    Message(Seq<char>),
}

impl DeepView for ResolverError {
    type V = ResolverErrorSpec;

    open spec fn deep_view(&self) -> ResolverErrorSpec {
        match self {
            ResolverError::Message(s) => ResolverErrorSpec::Message(s@),
        }
    }
}

/// What kind of function body the walk is inside.
#[derive(Clone, Copy, Debug, PartialEq, Eq, Structural)]
pub enum FunctionType {
    NotInFunction,
    InFunction,
    Initializer,
    Method,
}

/// Whether the walk is inside a class body, and whether that class has a
/// superclass.
#[derive(Clone, Copy, Debug, PartialEq, Eq, Structural)]
pub enum ClassType {
    NotInClass,
    InClass,
    InSubclass,
}

/// One lexical scope: names paired with their "defined" flag; a later pair
/// for the same name shadows an earlier one.
pub type ScopeSpec = Seq<(Seq<char>, bool)>;

/// The stack of open scopes, innermost last.
pub type ScopesSpec = Seq<ScopeSpec>;

/// Whether a scope holds a binding for `name`.
pub open spec fn scope_contains(sc: ScopeSpec, name: Seq<char>) -> bool {
    exists|i: int| 0 <= i < sc.len() && sc[i].0 == name
}

/// The "defined" flag of the binding for `name`, taking the latest pair.
pub open spec fn scope_find(sc: ScopeSpec, name: Seq<char>) -> Option<bool>
    decreases sc.len(),
{
    if sc.len() == 0 {
        None
    } else if sc.last().0 == name {
        Some(sc.last().1)
    } else {
        scope_find(sc.drop_last(), name)
    }
}

/// The depth of the innermost scope holding `name`: 0 for the top of the
/// stack, counting outward; `None` when no open scope holds it.
pub open spec fn sp_lookup(scs: ScopesSpec, name: Seq<char>) -> Option<int>
    decreases scs.len(),
{
    if scs.len() == 0 {
        None
    } else if scope_contains(scs.last(), name) {
        Some(0)
    } else {
        match sp_lookup(scs.drop_last(), name) {
            Some(d) => Some(d + 1),
            None => None,
        }
    }
}

/// A found depth names a real scope.
pub proof fn lemma_lookup_range(scs: ScopesSpec, name: Seq<char>)
    ensures
        sp_lookup(scs, name) is Some ==> 0 <= sp_lookup(scs, name)->0 < scs.len(),
    decreases scs.len(),
{
    if scs.len() > 0 && !scope_contains(scs.last(), name) {
        lemma_lookup_range(scs.drop_last(), name);
    }
}

/// When the scopes above `i` lack `name` and scope `i` holds it, the lookup
/// lands exactly on scope `i`.
pub proof fn lemma_lookup_found(scs: ScopesSpec, name: Seq<char>, i: int)
    requires
        0 <= i < scs.len(),
        scope_contains(scs[i], name),
        forall|j: int| i < j < scs.len() ==> !scope_contains(scs[j], name),
    ensures
        sp_lookup(scs, name) == Some(scs.len() - 1 - i),
    decreases scs.len(),
{
    if i == scs.len() - 1 {
    } else {
        assert(scs.drop_last()[i] == scs[i]);
        lemma_lookup_found(scs.drop_last(), name, i);
    }
}

/// When no open scope holds `name`, the lookup finds nothing.
pub proof fn lemma_lookup_none(scs: ScopesSpec, name: Seq<char>)
    requires
        forall|j: int| 0 <= j < scs.len() ==> !scope_contains(scs[j], name),
    ensures
        sp_lookup(scs, name) is None,
    decreases scs.len(),
{
    if scs.len() > 0 {
        lemma_lookup_none(scs.drop_last(), name);
    }
}

/// The message reported for a duplicate declaration of `name`.
pub open spec fn already_declared_msg(name: Seq<char>) -> Seq<char> {
    "Already a variable with name '"@ + name + "' in this scope."@
}

/// Declaring a name in the innermost open scope: an error when that scope
/// already holds it — every open scope is local, the global scope is the
/// implicit one left when no scope is open, and global redeclaration is
/// allowed.  The name enters with its "defined" flag down.
pub open spec fn sp_declare(scs: ScopesSpec, name: Seq<char>) -> Result<
    ScopesSpec,
    ResolverErrorSpec,
> {
    if scs.len() == 0 {
        Ok(scs)
    } else if scope_contains(scs.last(), name) {
        Err(ResolverErrorSpec::Message(already_declared_msg(name)))
    } else {
        Ok(scs.update(scs.len() - 1, scs.last().push((name, false))))
    }
}

/// Defining a name: its "defined" flag goes up in the innermost scope.
pub open spec fn sp_define(scs: ScopesSpec, name: Seq<char>) -> ScopesSpec {
    if scs.len() == 0 {
        scs
    } else {
        scs.update(scs.len() - 1, scs.last().push((name, true)))
    }
}


/// Closing the innermost scope; a closed-over empty stack stays empty.
pub open spec fn sp_pop(scs: ScopesSpec) -> ScopesSpec {
    if scs.len() > 0 {
        scs.drop_last()
    } else {
        scs
    }
}

/// The message for reading a local variable inside its own initializer.
pub open spec fn own_initializer_msg() -> Seq<char> {
    "Can't read local variable in its own initializer"@
}

/// Resolution of one expression: the same expression with its depth fields
/// filled in, or the static error it raises.  Expressions never open or
/// close scopes.
#[verifier::opaque]
pub open spec fn sp_res_expr(e: ExprSpec, scs: ScopesSpec, fty: FunctionType, cty: ClassType) -> Result<
    ExprSpec,
    ResolverErrorSpec,
>
    decreases e, 0int, 0int,
{
    match e {
        ExprSpec::Literal(l) => Ok(ExprSpec::Literal(l)),
        ExprSpec::Group(inner) => match sp_res_expr(*inner, scs, fty, cty) {
            Ok(iv) => Ok(ExprSpec::Group(Box::new(iv))),
            Err(er) => Err(er),
        },
        ExprSpec::Unary { operator, expression } => match sp_res_expr(*expression, scs, fty, cty) {
            Ok(iv) => Ok(ExprSpec::Unary { operator, expression: Box::new(iv) }),
            Err(er) => Err(er),
        },
        ExprSpec::Binary { left, operator, right } => match sp_res_expr(*left, scs, fty, cty) {
            Ok(lv) => match sp_res_expr(*right, scs, fty, cty) {
                Ok(rv) => Ok(
                    ExprSpec::Binary { left: Box::new(lv), operator, right: Box::new(rv) },
                ),
                Err(er) => Err(er),
            },
            Err(er) => Err(er),
        },
        ExprSpec::Logical { left, operator, right } => match sp_res_expr(*left, scs, fty, cty) {
            Ok(lv) => match sp_res_expr(*right, scs, fty, cty) {
                Ok(rv) => Ok(
                    ExprSpec::Logical { left: Box::new(lv), operator, right: Box::new(rv) },
                ),
                Err(er) => Err(er),
            },
            Err(er) => Err(er),
        },
        ExprSpec::Variable { name, resolved } => match sp_lookup(scs, name) {
            Some(d) => {
                let idx = scs.len() - 1 - d;
                if scope_find(scs[idx], name) == Some(false) {
                    Err(ResolverErrorSpec::Message(own_initializer_msg()))
                } else {
                    Ok(ExprSpec::Variable { name, resolved: Some(d as usize) })
                }
            },
            None => Ok(ExprSpec::Variable { name, resolved: None }),
        },
        ExprSpec::Assign { name, value, resolved } => match sp_res_expr(*value, scs, fty, cty) {
            Ok(vv) => match sp_lookup(scs, name) {
                Some(d) => Ok(
                    ExprSpec::Assign {
                        name,
                        value: Box::new(vv),
                        resolved: Some(d as usize),
                    },
                ),
                None => Ok(ExprSpec::Assign { name, value: Box::new(vv), resolved: None }),
            },
            Err(er) => Err(er),
        },
        ExprSpec::Call { callee, args } => match sp_res_expr(*callee, scs, fty, cty) {
            Ok(cv) => match sp_res_exprs(args, 0, seq![], scs, fty, cty) {
                Ok(avs) => Ok(ExprSpec::Call { callee: Box::new(cv), args: avs }),
                Err(er) => Err(er),
            },
            Err(er) => Err(er),
        },
        ExprSpec::SetProp { object, property, value } => match sp_res_expr(*object, scs, fty, cty) {
            Ok(ov) => match sp_res_expr(*value, scs, fty, cty) {
                Ok(vv) => Ok(
                    ExprSpec::SetProp { object: Box::new(ov), property, value: Box::new(vv) },
                ),
                Err(er) => Err(er),
            },
            Err(er) => Err(er),
        },
        ExprSpec::Get { object, name } => match sp_res_expr(*object, scs, fty, cty) {
            Ok(ov) => Ok(ExprSpec::Get { object: Box::new(ov), name }),
            Err(er) => Err(er),
        },
        ExprSpec::This { resolved } => {
            if cty == ClassType::NotInClass {
                Err(ResolverErrorSpec::Message("Cannot use 'this' outside of a class."@))
            } else {
                match sp_lookup(scs, "this"@) {
                    Some(d) => Ok(ExprSpec::This { resolved: Some(d as usize) }),
                    None => Ok(ExprSpec::This { resolved: None }),
                }
            }
        },
        ExprSpec::Super { method, resolved } => {
            if cty == ClassType::NotInClass {
                Err(ResolverErrorSpec::Message("Can't use 'super' outside of a class."@))
            } else if cty == ClassType::InClass {
                Err(
                    ResolverErrorSpec::Message(
                        "Can't use 'super' in a class with no superclass."@,
                    ),
                )
            } else {
                match sp_lookup(scs, "super"@) {
                    Some(d) => Ok(ExprSpec::Super { method, resolved: Some(d as usize) }),
                    None => Ok(ExprSpec::Super { method, resolved: None }),
                }
            }
        },
    }
}

/// Resolution of the expressions from index `i` on, appended to `acc`.
#[verifier::opaque]
pub open spec fn sp_res_exprs(
    es: Seq<ExprSpec>,
    i: int,
    acc: Seq<ExprSpec>,
    scs: ScopesSpec,
    fty: FunctionType,
    cty: ClassType,
) -> Result<Seq<ExprSpec>, ResolverErrorSpec>
    decreases es, es.len() - i, 1int,
{
    if i < 0 || i >= es.len() {
        Ok(acc)
    } else {
        match sp_res_expr(es[i], scs, fty, cty) {
            Ok(ev) => sp_res_exprs(es, i + 1, acc.push(ev), scs, fty, cty),
            Err(er) => Err(er),
        }
    }
}

/// Resolution of one statement: the annotated statement and the scope stack
/// it leaves behind, or the static error it raises.
#[verifier::opaque]
pub open spec fn sp_res_stmt(st: StmtSpec, scs: ScopesSpec, fty: FunctionType, cty: ClassType) -> Result<
    (StmtSpec, ScopesSpec),
    ResolverErrorSpec,
>
    decreases st, 0int, 0int,
{
    match st {
        StmtSpec::Expr(e) => match sp_res_expr(e, scs, fty, cty) {
            Ok(ev) => Ok((StmtSpec::Expr(ev), scs)),
            Err(er) => Err(er),
        },
        StmtSpec::Print(e) => match sp_res_expr(e, scs, fty, cty) {
            Ok(ev) => Ok((StmtSpec::Print(ev), scs)),
            Err(er) => Err(er),
        },
        StmtSpec::Var { name, initializer } => match sp_declare(scs, name) {
            Ok(scs1) => match initializer {
                Some(e) => match sp_res_expr(e, scs1, fty, cty) {
                    Ok(ev) => Ok(
                        (
                            StmtSpec::Var { name, initializer: Some(ev) },
                            sp_define(scs1, name),
                        ),
                    ),
                    Err(er) => Err(er),
                },
                None => Ok((StmtSpec::Var { name, initializer: None }, sp_define(scs1, name))),
            },
            Err(er) => Err(er),
        },
        StmtSpec::Block(list) => match sp_res_stmts(list, 0, seq![], scs.push(seq![]), fty, cty) {
            Ok((items, scs1)) => Ok((StmtSpec::Block(items), sp_pop(scs1))),
            Err(er) => Err(er),
        },
        StmtSpec::If { condition, then_branch, else_branch } => match sp_res_expr(
            condition,
            scs,
            fty,
            cty,
        ) {
            Ok(cv) => match sp_res_stmt(*then_branch, scs, fty, cty) {
                Ok((tv, scs1)) => match else_branch {
                    Some(eb) => match sp_res_stmt(*eb, scs1, fty, cty) {
                        Ok((ev, scs2)) => Ok(
                            (
                                StmtSpec::If {
                                    condition: cv,
                                    then_branch: Box::new(tv),
                                    else_branch: Some(Box::new(ev)),
                                },
                                scs2,
                            ),
                        ),
                        Err(er) => Err(er),
                    },
                    None => Ok(
                        (
                            StmtSpec::If {
                                condition: cv,
                                then_branch: Box::new(tv),
                                else_branch: None,
                            },
                            scs1,
                        ),
                    ),
                },
                Err(er) => Err(er),
            },
            Err(er) => Err(er),
        },
        StmtSpec::While { condition, body } => match sp_res_expr(*condition, scs, fty, cty) {
            Ok(cv) => match sp_res_stmt(*body, scs, fty, cty) {
                Ok((bv, scs1)) => Ok(
                    (
                        StmtSpec::While { condition: Box::new(cv), body: Box::new(bv) },
                        scs1,
                    ),
                ),
                Err(er) => Err(er),
            },
            Err(er) => Err(er),
        },
        StmtSpec::For { initialize, condition, increment, body } => {
            let scs0 = scs.push(seq![]);
            let init_step: Result<(Option<Box<StmtSpec>>, ScopesSpec), ResolverErrorSpec> =
                match initialize {
                Some(ist) => match sp_res_stmt(*ist, scs0, fty, cty) {
                    Ok((iv, s1)) => Ok((Some(Box::new(iv)), s1)),
                    Err(er) => Err(er),
                },
                None => Ok((None, scs0)),
            };
            match init_step {
                Ok((iv, scs1)) => {
                    let cond_step: Result<(Option<ExprSpec>, ScopesSpec), ResolverErrorSpec> =
                        match condition {
                        Some(c) => match sp_res_expr(c, scs1, fty, cty) {
                            Ok(cv) => Ok((Some(cv), scs1)),
                            Err(er) => Err(er),
                        },
                        None => Ok((None, scs1)),
                    };
                    match cond_step {
                        Ok((cv, scs2)) => match sp_res_stmt(*body, scs2, fty, cty) {
                            Ok((bv, scs3)) => {
                                let incr_step: Result<
                                    (Option<ExprSpec>, ScopesSpec),
                                    ResolverErrorSpec,
                                > = match increment {
                                    Some(ic) => match sp_res_expr(ic, scs3, fty, cty) {
                                        Ok(icv) => Ok((Some(icv), scs3)),
                                        Err(er) => Err(er),
                                    },
                                    None => Ok((None, scs3)),
                                };
                                match incr_step {
                                    Ok((icv, scs4)) => Ok(
                                        (
                                            StmtSpec::For {
                                                initialize: iv,
                                                condition: cv,
                                                increment: icv,
                                                body: Box::new(bv),
                                            },
                                            sp_pop(scs4),
                                        ),
                                    ),
                                    Err(er) => Err(er),
                                }
                            },
                            Err(er) => Err(er),
                        },
                        Err(er) => Err(er),
                    }
                },
                Err(er) => Err(er),
            }
        },
        StmtSpec::Function { name, params, body } => match sp_declare(scs, name) {
            Ok(scs1) => {
                let scs2 = sp_define(scs1, name);
                match sp_res_function(params, body, scs2, FunctionType::InFunction, cty) {
                    Ok((bv, scs3)) => Ok((StmtSpec::Function { name, params, body: bv }, scs3)),
                    Err(er) => Err(er),
                }
            },
            Err(er) => Err(er),
        },
        StmtSpec::Return { value } => {
            if fty == FunctionType::NotInFunction {
                Err(ResolverErrorSpec::Message("Can't return from top-level code."@))
            } else if fty == FunctionType::Initializer && value is Some {
                Err(ResolverErrorSpec::Message("Can't return a value from an initializer."@))
            } else {
                match value {
                    Some(e) => match sp_res_expr(e, scs, fty, cty) {
                        Ok(ev) => Ok((StmtSpec::Return { value: Some(ev) }, scs)),
                        Err(er) => Err(er),
                    },
                    None => Ok((StmtSpec::Return { value: None }, scs)),
                }
            }
        },
        StmtSpec::Class { name, superclass, methods } => match sp_declare(scs, name) {
            Ok(scs1) => {
                let scs2 = sp_define(scs1, name);
                let new_cty = if superclass is Some {
                    ClassType::InSubclass
                } else {
                    ClassType::InClass
                };
                let super_check: Result<(), ResolverErrorSpec> = match superclass {
                    Some(sup) => match sp_lookup(scs2, sup) {
                        Some(d) => {
                            let idx = scs2.len() - 1 - d;
                            if scope_find(scs2[idx], sup) == Some(false) {
                                Err(ResolverErrorSpec::Message(own_initializer_msg()))
                            } else {
                                Ok(())
                            }
                        },
                        None => Ok(()),
                    },
                    None => Ok(()),
                };
                match super_check {
                    Ok(_) => {
                        let scs3 = if superclass is Some {
                            scs2.push(seq![("super"@, true)])
                        } else {
                            scs2
                        };
                        let scs4 = scs3.push(seq![("this"@, true)]);
                        match sp_res_methods(methods, 0, seq![], scs4, new_cty) {
                            Ok((mvs, scs5)) => {
                                let scs6 = sp_pop(scs5);
                                let scs7 = if superclass is Some {
                                    sp_pop(scs6)
                                } else {
                                    scs6
                                };
                                Ok((StmtSpec::Class { name, superclass, methods: mvs }, scs7))
                            },
                            Err(er) => Err(er),
                        }
                    },
                    Err(er) => Err(er),
                }
            },
            Err(er) => Err(er),
        },
    }
}

/// Resolution of the statements from index `i` on, appended to `acc`,
/// threading the scope stack through.
pub open spec fn sp_res_stmts(
    sts: Seq<StmtSpec>,
    i: int,
    acc: Seq<StmtSpec>,
    scs: ScopesSpec,
    fty: FunctionType,
    cty: ClassType,
) -> Result<(Seq<StmtSpec>, ScopesSpec), ResolverErrorSpec>
    decreases sts, sts.len() - i, 1int,
{
    if i < 0 || i >= sts.len() {
        Ok((acc, scs))
    } else {
        match sp_res_stmt(sts[i], scs, fty, cty) {
            Ok((sv, scs1)) => sp_res_stmts(sts, i + 1, acc.push(sv), scs1, fty, cty),
            Err(er) => Err(er),
        }
    }
}

/// Declaring and defining the parameters of a function, in order.
pub open spec fn sp_declare_params(params: Seq<Seq<char>>, i: int, scs: ScopesSpec) -> Result<
    ScopesSpec,
    ResolverErrorSpec,
>
    decreases params.len() - i,
{
    if i < 0 || i >= params.len() {
        Ok(scs)
    } else {
        match sp_declare(scs, params[i]) {
            Ok(scs1) => sp_declare_params(params, i + 1, sp_define(scs1, params[i])),
            Err(er) => Err(er),
        }
    }
}

/// Resolution of a function body: a fresh scope holding the parameters, the
/// body resolved inside it with the given function kind, and the scope
/// closed again.
#[verifier::opaque]
pub open spec fn sp_res_function(
    params: Seq<Seq<char>>,
    body: Seq<StmtSpec>,
    scs: ScopesSpec,
    fty: FunctionType,
    cty: ClassType,
) -> Result<(Seq<StmtSpec>, ScopesSpec), ResolverErrorSpec>
    decreases body, body.len() + 1, 0int,
{
    match sp_declare_params(params, 0, scs.push(seq![])) {
        Ok(scs1) => match sp_res_stmts(body, 0, seq![], scs1, fty, cty) {
            Ok((bv, scs2)) => Ok((bv, sp_pop(scs2))),
            Err(er) => Err(er),
        },
        Err(er) => Err(er),
    }
}

/// Resolution of one method: its body is resolved as an initializer when the
/// method is named `init`, as an ordinary method otherwise.  The parser only
/// ever puts function declarations in a class body; anything else is
/// reported as an error.
#[verifier::opaque]
pub open spec fn sp_res_method(m: StmtSpec, scs: ScopesSpec, cty: ClassType) -> Result<
    (StmtSpec, ScopesSpec),
    ResolverErrorSpec,
>
    decreases m, 0int, 0int,
{
    match m {
        StmtSpec::Function { name, params, body } => {
            let kind = if name == "init"@ {
                FunctionType::Initializer
            } else {
                FunctionType::Method
            };
            match sp_res_function(params, body, scs, kind, cty) {
                Ok((bv, scs1)) => Ok((StmtSpec::Function { name, params, body: bv }, scs1)),
                Err(er) => Err(er),
            }
        },
        _ => Err(ResolverErrorSpec::Message("Expect method."@)),
    }
}

/// Resolution of the methods from index `i` on, appended to `acc`.
#[verifier::opaque]
pub open spec fn sp_res_methods(
    ms: Seq<StmtSpec>,
    i: int,
    acc: Seq<StmtSpec>,
    scs: ScopesSpec,
    cty: ClassType,
) -> Result<(Seq<StmtSpec>, ScopesSpec), ResolverErrorSpec>
    decreases ms, ms.len() - i, 2int,
{
    if i < 0 || i >= ms.len() {
        Ok((acc, scs))
    } else {
        match sp_res_method(ms[i], scs, cty) {
            Ok((mv, scs1)) => sp_res_methods(ms, i + 1, acc.push(mv), scs1, cty),
            Err(er) => Err(er),
        }
    }
}

/// Resolution of a whole program: every statement annotated in order,
/// starting with no scope open (the global scope is implicit), outside any
/// function or class.
pub open spec fn sp_resolve_program(sts: Seq<StmtSpec>) -> Result<
    Seq<StmtSpec>,
    ResolverErrorSpec,
> {
    match sp_res_stmts(
        sts,
        0,
        seq![],
        seq![],
        FunctionType::NotInFunction,
        ClassType::NotInClass,
    ) {
        Ok((svs, scs)) => Ok(svs),
        Err(er) => Err(er),
    }
}

/// The resolver: the stack of open scopes and the kind of function and
/// class body the walk is currently inside.
pub struct Resolver {
    pub scopes: Vec<Vec<(String, bool)>>,
    pub current_function: FunctionType,
    pub current_class: ClassType,
}

impl Resolver {
    /// The images of the open scopes.
    pub open spec fn scs(&self) -> ScopesSpec {
        self.scopes.deep_view()
    }

    /// A fresh resolver: no scope open yet — the global scope is implicit,
    /// and names bound only there keep `resolved == None` — outside any
    /// function or class.
    pub fn new() -> (r: Resolver)
        ensures
            r.scs() =~= Seq::<ScopeSpec>::empty(),
            r.current_function == FunctionType::NotInFunction,
            r.current_class == ClassType::NotInClass,
    {
        let r = Resolver {
            scopes: Vec::new(),
            current_function: FunctionType::NotInFunction,
            current_class: ClassType::NotInClass,
        };
        proof {
            assert(r.scs() =~~= Seq::<ScopeSpec>::empty());
        }
        r
    }

    /// Opens a scope.
    fn begin_scope(&mut self)
        ensures
            final(self).scs() == old(self).scs().push(Seq::<(Seq<char>, bool)>::empty()),
            final(self).current_function == old(self).current_function,
            final(self).current_class == old(self).current_class,
    {
        self.scopes.push(Vec::new());
        proof {
            assert(self.scs() =~~= old(self).scs().push(Seq::<(Seq<char>, bool)>::empty()));
        }
    }

    /// Closes the innermost scope.
    fn end_scope(&mut self)
        ensures
            final(self).scs() == sp_pop(old(self).scs()),
            final(self).current_function == old(self).current_function,
            final(self).current_class == old(self).current_class,
    {
        let popped = self.scopes.pop();
        proof {
            if old(self).scopes@.len() > 0 {
                assert(self.scs() =~= old(self).scs().drop_last());
            } else {
                assert(self.scs() =~= old(self).scs());
            }
        }
    }

    /// Whether a scope holds a binding for the name.
    fn scope_has(sc: &Vec<(String, bool)>, name: &String) -> (r: bool)
        ensures
            r == scope_contains(sc.deep_view(), name@),
    {
        let mut i: usize = 0;
        while i < sc.len()
            invariant
                i <= sc@.len(),
                forall|j: int| 0 <= j < i ==> sc.deep_view()[j].0 != name@,
            decreases sc@.len() - i,
        {
            if sc[i].0 == *name {
                proof {
                    assert(sc.deep_view()[i as int].0 == name@);
                }
                return true;
            }
            i = i + 1;
        }
        false
    }

    /// The "defined" flag of the latest binding for the name in a scope.
    fn scope_flag(sc: &Vec<(String, bool)>, name: &String) -> (r: Option<bool>)
        ensures
            r == scope_find(sc.deep_view(), name@),
    {
        let ghost v = sc.deep_view();
        let mut i: usize = sc.len();
        proof {
            assert(v.take(v.len() as int) =~= v);
        }
        while i > 0
            invariant
                i <= sc@.len(),
                v == sc.deep_view(),
                scope_find(v, name@) == scope_find(v.take(i as int), name@),
            decreases i,
        {
            i = i - 1;
            if sc[i].0 == *name {
                proof {
                    assert(v.take(i + 1).last() == v[i as int]);
                    assert(v[i as int].0 == name@);
                }
                return Some(sc[i].1);
            }
            proof {
                assert(v.take(i + 1).last() == v[i as int]);
                assert(v.take(i + 1).drop_last() =~= v.take(i as int));
            }
        }
        proof {
            assert(v.take(0) =~= Seq::<(Seq<char>, bool)>::empty());
        }
        None
    }

    /// The depth of the innermost scope holding the name, if any, exactly as
    /// `sp_lookup` describes it.
    fn lookup_depth(&self, name: &String) -> (r: Option<usize>)
        ensures
            match sp_lookup(self.scs(), name@) {
                Some(d) => r == Some(d as usize) && 0 <= d < self.scs().len(),
                None => r is None,
            },
    {
        proof {
            lemma_lookup_range(self.scs(), name@);
        }
        let mut i: usize = self.scopes.len();
        while i > 0
            invariant
                i <= self.scopes@.len(),
                forall|j: int| i <= j < self.scs().len() ==> !scope_contains(self.scs()[j], name@),
            decreases i,
        {
            i = i - 1;
            if Self::scope_has(&self.scopes[i], name) {
                proof {
                    lemma_lookup_found(self.scs(), name@, i as int);
                }
                return Some(self.scopes.len() - 1 - i);
            }
        }
        proof {
            lemma_lookup_none(self.scs(), name@);
        }
        None
    }

    /// Declares a name in the innermost scope, exactly as `sp_declare`
    /// describes it.
    fn declare(&mut self, name: &String) -> (r: Result<(), ResolverError>)
        ensures
            final(self).current_function == old(self).current_function,
            final(self).current_class == old(self).current_class,
            match sp_declare(old(self).scs(), name@) {
                Ok(scs1) => r is Ok && final(self).scs() == scs1,
                Err(er) => r is Err && r->Err_0.deep_view() == er && final(self).scs() == old(
                    self,
                ).scs(),
            },
    {
        if self.scopes.len() == 0 {
            return Ok(());
        }
        let ghost v = self.scs();
        let top_opt = self.scopes.pop();
        match top_opt {
            Some(mut top) => {
                if Self::scope_has(&top, name) {
                    self.scopes.push(top);
                    proof {
                        assert(self.scs() =~= v);
                    }
                    let mut m = String::from_str("Already a variable with name '");
                    m.append(name.as_str());
                    m.append("' in this scope.");
                    Err(ResolverError::Message(m))
                } else {
                    top.push((name.clone(), false));
                    self.scopes.push(top);
                    proof {
                        assert(self.scs() =~~= v.update(
                            v.len() - 1,
                            v.last().push((name@, false)),
                        ));
                    }
                    Ok(())
                }
            },
            None => Ok(()),
        }
    }

    /// Marks a name defined in the innermost scope, exactly as `sp_define`
    /// describes it.
    fn define_name(&mut self, name: &String)
        ensures
            final(self).scs() == sp_define(old(self).scs(), name@),
            final(self).current_function == old(self).current_function,
            final(self).current_class == old(self).current_class,
    {
        if self.scopes.len() == 0 {
            return ;
        }
        let ghost v = self.scs();
        let top_opt = self.scopes.pop();
        match top_opt {
            Some(mut top) => {
                top.push((name.clone(), true));
                self.scopes.push(top);
                proof {
                    assert(self.scs() =~~= v.update(v.len() - 1, v.last().push((name@, true))));
                }
            },
            None => {},
        }
    }
}

impl Resolver {
    /// Resolves one expression, exactly as `sp_res_expr` describes it.
    #[verifier::rlimit(100)]
    #[verifier::spinoff_prover]
    fn resolve_expr(&self, e: &Expression) -> (r: Result<Expression, ResolverError>)
        ensures
            match sp_res_expr(e.deep_view(), self.scs(), self.current_function, self.current_class) {
                Ok(ev) => r is Ok && r->Ok_0.deep_view() == ev,
                Err(er) => r is Err && r->Err_0.deep_view() == er,
            },
        decreases e, 0int, 0int,
    {
        reveal(sp_res_expr);
        match e {
            Expression::Literal(l) => {
                let lit = match l {
                    crate::ast::Literal::Number(bits) => crate::ast::Literal::Number(*bits),
                    crate::ast::Literal::String(s) => crate::ast::Literal::String(s.clone()),
                    crate::ast::Literal::Boolean(b) => crate::ast::Literal::Boolean(*b),
                    crate::ast::Literal::Nil => crate::ast::Literal::Nil,
                };
                Ok(Expression::Literal(lit))
            },
            Expression::Group(inner) => {
                let iv = match self.resolve_expr(inner) {
                    Ok(v) => v,
                    Err(er) => {
                        return Err(er);
                    },
                };
                Ok(Expression::Group(Box::new(iv)))
            },
            Expression::Unary { operator, expression } => {
                let iv = match self.resolve_expr(expression) {
                    Ok(v) => v,
                    Err(er) => {
                        return Err(er);
                    },
                };
                Ok(Expression::Unary { operator: *operator, expression: Box::new(iv) })
            },
            Expression::Binary { left, operator, right } => {
                let lv = match self.resolve_expr(left) {
                    Ok(v) => v,
                    Err(er) => {
                        return Err(er);
                    },
                };
                let rv = match self.resolve_expr(right) {
                    Ok(v) => v,
                    Err(er) => {
                        return Err(er);
                    },
                };
                Ok(
                    Expression::Binary {
                        left: Box::new(lv),
                        operator: *operator,
                        right: Box::new(rv),
                    },
                )
            },
            Expression::Logical { left, operator, right } => {
                let lv = match self.resolve_expr(left) {
                    Ok(v) => v,
                    Err(er) => {
                        return Err(er);
                    },
                };
                let rv = match self.resolve_expr(right) {
                    Ok(v) => v,
                    Err(er) => {
                        return Err(er);
                    },
                };
                Ok(
                    Expression::Logical {
                        left: Box::new(lv),
                        operator: *operator,
                        right: Box::new(rv),
                    },
                )
            },
            Expression::Variable { name, resolved } => {
                match self.lookup_depth(name) {
                    Some(d) => {
                        let idx = self.scopes.len() - 1 - d;
                        let flag = Self::scope_flag(&self.scopes[idx], name);
                        let bad = match flag {
                            Some(f) => !f,
                            None => false,
                        };
                        if bad {
                            Err(
                                ResolverError::Message(
                                    String::from_str(
                                        "Can't read local variable in its own initializer",
                                    ),
                                ),
                            )
                        } else {
                            Ok(Expression::Variable { name: name.clone(), resolved: Some(d) })
                        }
                    },
                    None => Ok(Expression::Variable { name: name.clone(), resolved: None }),
                }
            },
            Expression::Assign { name, value, resolved } => {
                let vv = match self.resolve_expr(value) {
                    Ok(v) => v,
                    Err(er) => {
                        return Err(er);
                    },
                };
                let depth = self.lookup_depth(name);
                Ok(Expression::Assign { name: name.clone(), value: Box::new(vv), resolved: depth })
            },
            Expression::Call { callee, args } => {
                let cv = match self.resolve_expr(callee) {
                    Ok(v) => v,
                    Err(er) => {
                        return Err(er);
                    },
                };
                let empty_acc: Vec<Expression> = Vec::new();
                proof {
                    assert(empty_acc.deep_view() =~= Seq::<ExprSpec>::empty());
                }
                let avs = match self.resolve_exprs_from(args, 0, empty_acc) {
                    Ok(v) => v,
                    Err(er) => {
                        return Err(er);
                    },
                };
                proof {
                    lemma_exprs_view_from(avs@, 0);
                    assert(exprs_view_from(avs@, 0) =~= avs.deep_view());
                }
                Ok(Expression::Call { callee: Box::new(cv), args: avs })
            },
            Expression::SetProp { object, property, value } => {
                let ov = match self.resolve_expr(object) {
                    Ok(v) => v,
                    Err(er) => {
                        return Err(er);
                    },
                };
                let vv = match self.resolve_expr(value) {
                    Ok(v) => v,
                    Err(er) => {
                        return Err(er);
                    },
                };
                Ok(
                    Expression::SetProp {
                        object: Box::new(ov),
                        property: property.clone(),
                        value: Box::new(vv),
                    },
                )
            },
            Expression::Get { object, name } => {
                let ov = match self.resolve_expr(object) {
                    Ok(v) => v,
                    Err(er) => {
                        return Err(er);
                    },
                };
                Ok(Expression::Get { object: Box::new(ov), name: name.clone() })
            },
            Expression::This { resolved } => {
                if self.current_class == ClassType::NotInClass {
                    return Err(
                        ResolverError::Message(
                            String::from_str("Cannot use 'this' outside of a class."),
                        ),
                    );
                }
                let key = String::from_str("this");
                match self.lookup_depth(&key) {
                    Some(d) => Ok(Expression::This { resolved: Some(d) }),
                    None => Ok(Expression::This { resolved: None }),
                }
            },
            Expression::Super { method, resolved } => {
                if self.current_class == ClassType::NotInClass {
                    return Err(
                        ResolverError::Message(
                            String::from_str("Can't use 'super' outside of a class."),
                        ),
                    );
                }
                if self.current_class == ClassType::InClass {
                    return Err(
                        ResolverError::Message(
                            String::from_str("Can't use 'super' in a class with no superclass."),
                        ),
                    );
                }
                let key = String::from_str("super");
                match self.lookup_depth(&key) {
                    Some(d) => Ok(Expression::Super { method: method.clone(), resolved: Some(d) }),
                    None => Ok(Expression::Super { method: method.clone(), resolved: None }),
                }
            },
        }
    }

    /// Resolves the expressions from index `i` on, exactly as `sp_res_exprs`
    /// describes them.
    #[verifier::rlimit(100)]
    #[verifier::spinoff_prover]
    fn resolve_exprs_from(&self, es: &Vec<Expression>, i: usize, acc: Vec<Expression>) -> (r:
        Result<Vec<Expression>, ResolverError>)
        requires
            i <= es@.len(),
        ensures
            match sp_res_exprs(
                exprs_view_from(es@, 0),
                i as int,
                acc.deep_view(),
                self.scs(),
                self.current_function,
                self.current_class,
            ) {
                Ok(evs) => r is Ok && r->Ok_0.deep_view() == evs,
                Err(er) => r is Err && r->Err_0.deep_view() == er,
            },
        decreases es, es@.len() - i, 1int,
    {
        reveal(sp_res_exprs);
        proof {
            lemma_exprs_view_from(es@, 0);
        }
        if i >= es.len() {
            return Ok(acc);
        }
        let ghost acc0 = acc.deep_view();
        let ev = match self.resolve_expr(&es[i]) {
            Ok(v) => v,
            Err(er) => {
                return Err(er);
            },
        };
        let ghost evv = ev.deep_view();
        let mut acc2 = acc;
        acc2.push(ev);
        proof {
            assert(acc2.deep_view() =~= acc0.push(evv));
        }
        self.resolve_exprs_from(es, i + 1, acc2)
    }
}

impl Resolver {
    /// Resolves one statement, exactly as `sp_res_stmt` describes it.
    #[verifier::rlimit(100)]
    #[verifier::spinoff_prover]
    fn resolve_stmt(&mut self, st: &Statement) -> (r: Result<Statement, ResolverError>)
        ensures
            match sp_res_stmt(
                st.deep_view(),
                old(self).scs(),
                old(self).current_function,
                old(self).current_class,
            ) {
                Ok((sv, scs1)) => r is Ok && r->Ok_0.deep_view() == sv && final(self).scs() == scs1
                    && final(self).current_function == old(self).current_function && final(self).current_class == old(self).current_class,
                Err(er) => r is Err && r->Err_0.deep_view() == er,
            },
        decreases st, 0int, 0int,
    {
        reveal(sp_res_stmt);
        match st {
            Statement::Expr(e) => {
                let ev = match self.resolve_expr(e) {
                    Ok(v) => v,
                    Err(er) => {
                        return Err(er);
                    },
                };
                Ok(Statement::Expr(ev))
            },
            Statement::Print(e) => {
                let ev = match self.resolve_expr(e) {
                    Ok(v) => v,
                    Err(er) => {
                        return Err(er);
                    },
                };
                Ok(Statement::Print(ev))
            },
            Statement::Var { name, initializer } => {
                match self.declare(name) {
                    Ok(u) => u,
                    Err(er) => {
                        return Err(er);
                    },
                }
                let init2 = match initializer {
                    Some(e) => {
                        let ev = match self.resolve_expr(e) {
                            Ok(v) => v,
                            Err(er) => {
                                return Err(er);
                            },
                        };
                        Some(ev)
                    },
                    None => None,
                };
                self.define_name(name);
                Ok(Statement::Var { name: name.clone(), initializer: init2 })
            },
            Statement::Block(list) => {
                self.begin_scope();
                let empty_acc: Vec<Statement> = Vec::new();
                proof {
                    assert(empty_acc.deep_view() =~= Seq::<StmtSpec>::empty());
                }
                let items = match self.resolve_stmts_from(list, 0, empty_acc) {
                    Ok(v) => v,
                    Err(er) => {
                        return Err(er);
                    },
                };
                self.end_scope();
                proof {
                    lemma_stmts_view_from(items@, 0);
                    assert(stmts_view_from(items@, 0) =~= items.deep_view());
                }
                Ok(Statement::Block(items))
            },
            Statement::If { condition, then_branch, else_branch } => {
                let cv = match self.resolve_expr(condition) {
                    Ok(v) => v,
                    Err(er) => {
                        return Err(er);
                    },
                };
                let tv = match self.resolve_stmt(then_branch) {
                    Ok(v) => v,
                    Err(er) => {
                        return Err(er);
                    },
                };
                match else_branch {
                    Some(eb) => {
                        let ev = match self.resolve_stmt(eb) {
                            Ok(v) => v,
                            Err(er) => {
                                return Err(er);
                            },
                        };
                        Ok(
                            Statement::If {
                                condition: cv,
                                then_branch: Box::new(tv),
                                else_branch: Some(Box::new(ev)),
                            },
                        )
                    },
                    None => Ok(
                        Statement::If {
                            condition: cv,
                            then_branch: Box::new(tv),
                            else_branch: None,
                        },
                    ),
                }
            },
            Statement::While { condition, body } => {
                let cv = match self.resolve_expr(condition) {
                    Ok(v) => v,
                    Err(er) => {
                        return Err(er);
                    },
                };
                let bv = match self.resolve_stmt(body) {
                    Ok(v) => v,
                    Err(er) => {
                        return Err(er);
                    },
                };
                Ok(Statement::While { condition: Box::new(cv), body: Box::new(bv) })
            },
            Statement::For { initialize, condition, increment, body } => {
                self.begin_scope();
                let iv = match initialize {
                    Some(ist) => {
                        let v = match self.resolve_stmt(ist) {
                            Ok(v) => v,
                            Err(er) => {
                                return Err(er);
                            },
                        };
                        Some(Box::new(v))
                    },
                    None => None,
                };
                let cv = match condition {
                    Some(c) => {
                        let v = match self.resolve_expr(c) {
                            Ok(v) => v,
                            Err(er) => {
                                return Err(er);
                            },
                        };
                        Some(v)
                    },
                    None => None,
                };
                let bv = match self.resolve_stmt(body) {
                    Ok(v) => v,
                    Err(er) => {
                        return Err(er);
                    },
                };
                let icv = match increment {
                    Some(ic) => {
                        let v = match self.resolve_expr(ic) {
                            Ok(v) => v,
                            Err(er) => {
                                return Err(er);
                            },
                        };
                        Some(v)
                    },
                    None => None,
                };
                self.end_scope();
                Ok(
                    Statement::For {
                        initialize: iv,
                        condition: cv,
                        increment: icv,
                        body: Box::new(bv),
                    },
                )
            },
            Statement::Function { name, params, body } => {
                match self.declare(name) {
                    Ok(u) => u,
                    Err(er) => {
                        return Err(er);
                    },
                }
                self.define_name(name);
                let bv = match self.resolve_function(params, body, FunctionType::InFunction) {
                    Ok(v) => v,
                    Err(er) => {
                        return Err(er);
                    },
                };
                proof {
                    lemma_stmts_view_from(bv@, 0);
                    assert(stmts_view_from(bv@, 0) =~= bv.deep_view());
                }
                Ok(Statement::Function { name: name.clone(), params: clone_params(params), body: bv })
            },
            Statement::Return { value } => {
                if self.current_function == FunctionType::NotInFunction {
                    return Err(
                        ResolverError::Message(
                            String::from_str("Can't return from top-level code."),
                        ),
                    );
                }
                if self.current_function == FunctionType::Initializer && value.is_some() {
                    return Err(
                        ResolverError::Message(
                            String::from_str("Can't return a value from an initializer."),
                        ),
                    );
                }
                match value {
                    Some(e) => {
                        let ev = match self.resolve_expr(e) {
                            Ok(v) => v,
                            Err(er) => {
                                return Err(er);
                            },
                        };
                        Ok(Statement::Return { value: Some(ev) })
                    },
                    None => Ok(Statement::Return { value: None }),
                }
            },
            Statement::Class { name, superclass, methods } => {
                self.resolve_class(name, superclass, methods)
            },
        }
    }

    /// Resolves a class declaration: the class name enters the surrounding
    /// scope, a scope holding `super` opens when the class has a superclass,
    /// a scope holding `this` opens around the methods, and each method body
    /// is resolved as a method (as an initializer when it is named `init`).
    #[verifier::rlimit(100)]
    #[verifier::spinoff_prover]
    fn resolve_class(
        &mut self,
        name: &String,
        superclass: &Option<String>,
        methods: &Vec<Statement>,
    ) -> (r: Result<Statement, ResolverError>)
        ensures
            match sp_res_stmt(
                StmtSpec::Class {
                    name: name@,
                    superclass: match superclass {
                        Some(s) => Some(s@),
                        None => None,
                    },
                    methods: stmts_view_from(methods@, 0),
                },
                old(self).scs(),
                old(self).current_function,
                old(self).current_class,
            ) {
                Ok((sv, scs1)) => r is Ok && r->Ok_0.deep_view() == sv && final(self).scs() == scs1
                    && final(self).current_function == old(self).current_function && final(self).current_class == old(self).current_class,
                Err(er) => r is Err && r->Err_0.deep_view() == er,
            },
        decreases methods, methods@.len() + 2, 0int,
    {
        reveal(sp_res_stmt);
        match self.declare(name) {
            Ok(u) => u,
            Err(er) => {
                return Err(er);
            },
        }
        self.define_name(name);
        let enclosing = self.current_class;
        let has_super = superclass.is_some();
        self.current_class = if has_super {
            ClassType::InSubclass
        } else {
            ClassType::InClass
        };
        match superclass {
            Some(sup) => {
                match self.lookup_depth(sup) {
                    Some(d) => {
                        let idx = self.scopes.len() - 1 - d;
                        let flag = Self::scope_flag(&self.scopes[idx], sup);
                        let bad = match flag {
                            Some(f) => !f,
                            None => false,
                        };
                        if bad {
                            self.current_class = enclosing;
                            return Err(
                                ResolverError::Message(
                                    String::from_str(
                                        "Can't read local variable in its own initializer",
                                    ),
                                ),
                            );
                        }
                    },
                    None => {},
                }
            },
            None => {},
        }
        if has_super {
            let ghost pre_super = self.scs();
            self.begin_scope();
            let super_key = String::from_str("super");
            self.define_name(&super_key);
            proof {
                assert(self.scs() =~~= pre_super.push(seq![("super"@, true)]));
            }
        }
        let ghost pre_this = self.scs();
        self.begin_scope();
        let this_key = String::from_str("this");
        self.define_name(&this_key);
        proof {
            assert(self.scs() =~~= pre_this.push(seq![("this"@, true)]));
        }
        let empty_acc: Vec<Statement> = Vec::new();
        proof {
            assert(empty_acc.deep_view() =~= Seq::<StmtSpec>::empty());
        }
        let mvs = match self.resolve_methods(methods, 0, empty_acc) {
            Ok(v) => v,
            Err(er) => {
                return Err(er);
            },
        };
        self.end_scope();
        if has_super {
            self.end_scope();
        }
        self.current_class = enclosing;
        proof {
            lemma_stmts_view_from(mvs@, 0);
            assert(stmts_view_from(mvs@, 0) =~= mvs.deep_view());
        }
        let sup2: Option<String> = match superclass {
            Some(s) => Some(s.clone()),
            None => None,
        };
        Ok(Statement::Class { name: name.clone(), superclass: sup2, methods: mvs })
    }

    /// Resolves the statements from index `i` on, exactly as `sp_res_stmts`
    /// describes them.
    #[verifier::rlimit(100)]
    #[verifier::spinoff_prover]
    fn resolve_stmts_from(&mut self, sts: &Vec<Statement>, i: usize, acc: Vec<Statement>) -> (r:
        Result<Vec<Statement>, ResolverError>)
        requires
            i <= sts@.len(),
        ensures
            match sp_res_stmts(
                stmts_view_from(sts@, 0),
                i as int,
                acc.deep_view(),
                old(self).scs(),
                old(self).current_function,
                old(self).current_class,
            ) {
                Ok((svs, scs1)) => r is Ok && r->Ok_0.deep_view() == svs && final(self).scs()
                    == scs1 && final(self).current_function == old(self).current_function && final(self).current_class == old(self).current_class,
                Err(er) => r is Err && r->Err_0.deep_view() == er,
            },
        decreases sts, sts@.len() - i, 1int,
    {
        proof {
            lemma_stmts_view_from(sts@, 0);
        }
        if i >= sts.len() {
            return Ok(acc);
        }
        let ghost acc0 = acc.deep_view();
        let sv = match self.resolve_stmt(&sts[i]) {
            Ok(v) => v,
            Err(er) => {
                return Err(er);
            },
        };
        let ghost svv = sv.deep_view();
        let mut acc2 = acc;
        acc2.push(sv);
        proof {
            assert(acc2.deep_view() =~= acc0.push(svv));
        }
        self.resolve_stmts_from(sts, i + 1, acc2)
    }

    /// Declares and defines the parameters from index `i` on, exactly as
    /// `sp_declare_params` describes.
    #[verifier::rlimit(100)]
    #[verifier::spinoff_prover]
    fn declare_params(&mut self, params: &Vec<String>, i: usize) -> (r: Result<(), ResolverError>)
        requires
            i <= params@.len(),
        ensures
            final(self).current_function == old(self).current_function,
            final(self).current_class == old(self).current_class,
            match sp_declare_params(params.deep_view(), i as int, old(self).scs()) {
                Ok(scs1) => r is Ok && final(self).scs() == scs1,
                Err(er) => r is Err && r->Err_0.deep_view() == er,
            },
        decreases params@.len() - i,
    {
        if i >= params.len() {
            return Ok(());
        }
        match self.declare(&params[i]) {
            Ok(u) => u,
            Err(er) => {
                return Err(er);
            },
        }
        self.define_name(&params[i]);
        self.declare_params(params, i + 1)
    }

    /// Resolves a function body in a fresh scope holding the parameters,
    /// exactly as `sp_res_function` describes.
    #[verifier::rlimit(100)]
    #[verifier::spinoff_prover]
    fn resolve_function(
        &mut self,
        params: &Vec<String>,
        body: &Vec<Statement>,
        fty: FunctionType,
    ) -> (r: Result<Vec<Statement>, ResolverError>)
        ensures
            match sp_res_function(
                params.deep_view(),
                stmts_view_from(body@, 0),
                old(self).scs(),
                fty,
                old(self).current_class,
            ) {
                Ok((bv, scs1)) => r is Ok && r->Ok_0.deep_view() == bv && final(self).scs() == scs1
                    && final(self).current_function == old(self).current_function && final(self).current_class == old(self).current_class,
                Err(er) => r is Err && r->Err_0.deep_view() == er,
            },
        decreases body, body@.len() + 1, 0int,
    {
        reveal(sp_res_function);
        let enclosing = self.current_function;
        self.current_function = fty;
        self.begin_scope();
        match self.declare_params(params, 0) {
            Ok(u) => u,
            Err(er) => {
                return Err(er);
            },
        }
        let empty_acc: Vec<Statement> = Vec::new();
        proof {
            assert(empty_acc.deep_view() =~= Seq::<StmtSpec>::empty());
        }
        let bv = match self.resolve_stmts_from(body, 0, empty_acc) {
            Ok(v) => v,
            Err(er) => {
                return Err(er);
            },
        };
        self.end_scope();
        self.current_function = enclosing;
        Ok(bv)
    }

    /// Resolves one class member, exactly as `sp_res_method` describes it.
    #[verifier::rlimit(100)]
    #[verifier::spinoff_prover]
    fn resolve_method(&mut self, m: &Statement) -> (r: Result<Statement, ResolverError>)
        ensures
            match sp_res_method(m.deep_view(), old(self).scs(), old(self).current_class) {
                Ok((mv, scs1)) => r is Ok && r->Ok_0.deep_view() == mv && final(self).scs() == scs1
                    && final(self).current_function == old(self).current_function && final(self).current_class == old(self).current_class,
                Err(er) => r is Err && r->Err_0.deep_view() == er,
            },
        decreases m, 0int, 0int,
    {
        reveal(sp_res_method);
        match m {
            Statement::Function { name, params, body } => {
                let kind = if crate::text::str_eq(name.as_str(), "init") {
                    FunctionType::Initializer
                } else {
                    FunctionType::Method
                };
                let bv = match self.resolve_function(params, body, kind) {
                    Ok(v) => v,
                    Err(er) => {
                        return Err(er);
                    },
                };
                proof {
                    lemma_stmts_view_from(bv@, 0);
                    assert(stmts_view_from(bv@, 0) =~= bv.deep_view());
                }
                Ok(Statement::Function { name: name.clone(), params: clone_params(params), body: bv })
            },
            _ => Err(ResolverError::Message(String::from_str("Expect method."))),
        }
    }

    /// Resolves the class members from index `i` on, exactly as
    /// `sp_res_methods` describes them.
    #[verifier::rlimit(100)]
    #[verifier::spinoff_prover]
    fn resolve_methods(&mut self, ms: &Vec<Statement>, i: usize, acc: Vec<Statement>) -> (r: Result<
        Vec<Statement>,
        ResolverError,
    >)
        requires
            i <= ms@.len(),
        ensures
            match sp_res_methods(
                stmts_view_from(ms@, 0),
                i as int,
                acc.deep_view(),
                old(self).scs(),
                old(self).current_class,
            ) {
                Ok((mvs, scs1)) => r is Ok && r->Ok_0.deep_view() == mvs && final(self).scs()
                    == scs1 && final(self).current_function == old(self).current_function && final(self).current_class == old(self).current_class,
                Err(er) => r is Err && r->Err_0.deep_view() == er,
            },
        decreases ms, ms@.len() - i, 2int,
    {
        reveal(sp_res_methods);
        proof {
            lemma_stmts_view_from(ms@, 0);
        }
        if i >= ms.len() {
            return Ok(acc);
        }
        let ghost acc0 = acc.deep_view();
        let mv = match self.resolve_method(&ms[i]) {
            Ok(v) => v,
            Err(er) => {
                return Err(er);
            },
        };
        let ghost mvv = mv.deep_view();
        let mut acc2 = acc;
        acc2.push(mv);
        proof {
            assert(acc2.deep_view() =~= acc0.push(mvv));
        }
        self.resolve_methods(ms, i + 1, acc2)
    }

    /// Resolves a statement list in the current state, exactly as
    /// `sp_res_stmts` describes it; from a fresh resolver this is
    /// `sp_resolve_program`.
    pub fn resolve_stmts(&mut self, statements: &Vec<Statement>) -> (r: Result<
        Vec<Statement>,
        ResolverError,
    >)
        ensures
            match sp_res_stmts(
                stmts_view_from(statements@, 0),
                0,
                Seq::<StmtSpec>::empty(),
                old(self).scs(),
                old(self).current_function,
                old(self).current_class,
            ) {
                Ok((svs, scs1)) => r is Ok && r->Ok_0.deep_view() == svs,
                Err(er) => r is Err && r->Err_0.deep_view() == er,
            },
    {
        let empty_acc: Vec<Statement> = Vec::new();
        proof {
            assert(empty_acc.deep_view() =~= Seq::<StmtSpec>::empty());
        }
        self.resolve_stmts_from(statements, 0, empty_acc)
    }
}

/// A copy of a parameter list.
fn clone_params(params: &Vec<String>) -> (r: Vec<String>)
    ensures
        r.deep_view() == params.deep_view(),
{
    let mut out: Vec<String> = Vec::new();
    let mut i: usize = 0;
    while i < params.len()
        invariant
            i <= params@.len(),
            out@.len() == i,
            forall|j: int| 0 <= j < i ==> out.deep_view()[j] == params.deep_view()[j],
        decreases params@.len() - i,
    {
        out.push(params[i].clone());
        i = i + 1;
    }
    proof {
        assert(out.deep_view() =~= params.deep_view());
    }
    out
}

/// A use of a name before a later `var` declaration in the same block reads
/// the outer binding: resolving the use is unaffected by the declaration
/// that follows it, because statements resolve in order and the declaration
/// has not yet touched the scope.  (The one rejection is a use inside that
/// same `var`'s own initializer, which `sp_res_stmt` reports.)
pub proof fn lemma_use_before_declaration(
    x: Seq<char>,
    init: Option<ExprSpec>,
    rest: Seq<StmtSpec>,
    scs: ScopesSpec,
    fty: FunctionType,
    cty: ClassType,
)
    ensures
        ({
            let use_stmt = StmtSpec::Expr(ExprSpec::Variable { name: x, resolved: None });
            let decl = StmtSpec::Var { name: x, initializer: init };
            let stmts = seq![use_stmt, decl] + rest;
            match sp_res_stmts(stmts, 0, seq![], scs, fty, cty) {
                Ok((svs, _)) => svs.len() >= 1 && svs[0] == (match sp_res_expr(
                    ExprSpec::Variable { name: x, resolved: None },
                    scs,
                    fty,
                    cty,
                ) {
                    Ok(ev) => StmtSpec::Expr(ev),
                    Err(_) => svs[0],
                }),
                Err(_) => true,
            }
        }),
{
    reveal(sp_res_stmt);
    let use_stmt = StmtSpec::Expr(ExprSpec::Variable { name: x, resolved: None });
    let decl = StmtSpec::Var { name: x, initializer: init };
    let stmts = seq![use_stmt, decl] + rest;
    assert(stmts[0] == use_stmt);
    match sp_res_expr(ExprSpec::Variable { name: x, resolved: None }, scs, fty, cty) {
        Ok(ev) => {
            assert(sp_res_stmt(use_stmt, scs, fty, cty) == Ok::<_, ResolverErrorSpec>((
                StmtSpec::Expr(ev),
                scs,
            )));
            assert(seq![StmtSpec::Expr(ev)] =~= Seq::<StmtSpec>::empty().push(
                StmtSpec::Expr(ev),
            ));
            lemma_res_stmts_prefix(stmts, 1, seq![StmtSpec::Expr(ev)], scs, fty, cty);
            assert(seq![StmtSpec::Expr(ev)][0] == StmtSpec::Expr(ev));
        },
        Err(_) => {},
    }
}

/// Whatever resolution does to later statements, the already-resolved
/// prefix it carries comes through unchanged.
pub proof fn lemma_res_stmts_prefix(
    sts: Seq<StmtSpec>,
    i: int,
    acc: Seq<StmtSpec>,
    scs: ScopesSpec,
    fty: FunctionType,
    cty: ClassType,
)
    ensures
        match sp_res_stmts(sts, i, acc, scs, fty, cty) {
            Ok((svs, _)) => svs.len() >= acc.len() && forall|j: int|
                0 <= j < acc.len() ==> svs[j] == acc[j],
            Err(_) => true,
        },
    decreases sts.len() - i,
{
    reveal(sp_res_stmt);
    if i < 0 || i >= sts.len() {
        assert(sp_res_stmts(sts, i, acc, scs, fty, cty) == Ok::<
            (Seq<StmtSpec>, ScopesSpec),
            ResolverErrorSpec,
        >((acc, scs)));
    } else {
        match sp_res_stmt(sts[i], scs, fty, cty) {
            Ok((sv, scs1)) => {
                assert(sp_res_stmts(sts, i, acc, scs, fty, cty) == sp_res_stmts(
                    sts,
                    i + 1,
                    acc.push(sv),
                    scs1,
                    fty,
                    cty,
                ));
                lemma_res_stmts_prefix(sts, i + 1, acc.push(sv), scs1, fty, cty);
                match sp_res_stmts(sts, i + 1, acc.push(sv), scs1, fty, cty) {
                    Ok((svs, _)) => {
                        assert forall|j: int| 0 <= j < acc.len() implies svs[j] == acc[j] by {
                            assert(svs[j] == acc.push(sv)[j]);
                            assert(acc.push(sv)[j] == acc[j]);
                        }
                    },
                    Err(_) => {},
                }
            },
            Err(_) => {},
        }
    }
}

/// Resolution never reads an existing depth annotation: a variable use, an
/// assignment target, a `this` or a `super` resolves the same whatever its
/// `resolved` field held before the walk.  Those four are the only annotated
/// nodes, so re-resolving a program with its annotations cleared — or with
/// any annotations at all — rebuilds exactly the same tree.
pub proof fn lemma_resolution_ignores_variable_annotation(
    name: Seq<char>,
    r1: Option<usize>,
    r2: Option<usize>,
    scs: ScopesSpec,
    fty: FunctionType,
    cty: ClassType,
)
    ensures
        sp_res_expr(ExprSpec::Variable { name, resolved: r1 }, scs, fty, cty) == sp_res_expr(
            ExprSpec::Variable { name, resolved: r2 },
            scs,
            fty,
            cty,
        ),
        sp_res_expr(ExprSpec::This { resolved: r1 }, scs, fty, cty) == sp_res_expr(
            ExprSpec::This { resolved: r2 },
            scs,
            fty,
            cty,
        ),
        sp_res_expr(ExprSpec::Super { method: name, resolved: r1 }, scs, fty, cty)
            == sp_res_expr(ExprSpec::Super { method: name, resolved: r2 }, scs, fty, cty),
{
    reveal(sp_res_expr);
}

/// The assignment-target side of the same fact: an assignment with a given
/// value sub-tree resolves the same whatever its own annotation held.
pub proof fn lemma_resolution_ignores_assign_annotation(
    name: Seq<char>,
    value: ExprSpec,
    r1: Option<usize>,
    r2: Option<usize>,
    scs: ScopesSpec,
    fty: FunctionType,
    cty: ClassType,
)
    ensures
        sp_res_expr(
            ExprSpec::Assign { name, value: Box::new(value), resolved: r1 },
            scs,
            fty,
            cty,
        ) == sp_res_expr(
            ExprSpec::Assign { name, value: Box::new(value), resolved: r2 },
            scs,
            fty,
            cty,
        ),
{
    reveal(sp_res_expr);
}

/// The expression with every depth annotation wiped: what the parser
/// originally produced.
pub open spec fn clear_expr(e: ExprSpec) -> ExprSpec
    decreases e, 0int,
{
    match e {
        ExprSpec::Literal(l) => ExprSpec::Literal(l),
        ExprSpec::Group(inner) => ExprSpec::Group(Box::new(clear_expr(*inner))),
        ExprSpec::Unary { operator, expression } => ExprSpec::Unary {
            operator,
            expression: Box::new(clear_expr(*expression)),
        },
        ExprSpec::Binary { left, operator, right } => ExprSpec::Binary {
            left: Box::new(clear_expr(*left)),
            operator,
            right: Box::new(clear_expr(*right)),
        },
        ExprSpec::Logical { left, operator, right } => ExprSpec::Logical {
            left: Box::new(clear_expr(*left)),
            operator,
            right: Box::new(clear_expr(*right)),
        },
        ExprSpec::Variable { name, resolved } => ExprSpec::Variable { name, resolved: None },
        ExprSpec::Assign { name, value, resolved } => ExprSpec::Assign {
            name,
            value: Box::new(clear_expr(*value)),
            resolved: None,
        },
        ExprSpec::Call { callee, args } => ExprSpec::Call {
            callee: Box::new(clear_expr(*callee)),
            args: clear_exprs_from(args, 0),
        },
        ExprSpec::SetProp { object, property, value } => ExprSpec::SetProp {
            object: Box::new(clear_expr(*object)),
            property,
            value: Box::new(clear_expr(*value)),
        },
        ExprSpec::Get { object, name } => ExprSpec::Get {
            object: Box::new(clear_expr(*object)),
            name,
        },
        ExprSpec::This { resolved } => ExprSpec::This { resolved: None },
        ExprSpec::Super { method, resolved } => ExprSpec::Super { method, resolved: None },
    }
}

/// The expressions from index `i` on, each with its annotations wiped.
pub open spec fn clear_exprs_from(es: Seq<ExprSpec>, i: int) -> Seq<ExprSpec>
    decreases es, es.len() - i,
{
    if i < 0 || i >= es.len() {
        seq![]
    } else {
        seq![clear_expr(es[i])] + clear_exprs_from(es, i + 1)
    }
}

/// How `clear_exprs_from` relates to the elements it clears.
pub proof fn lemma_clear_exprs_from(es: Seq<ExprSpec>, i: int)
    requires
        0 <= i <= es.len(),
    ensures
        clear_exprs_from(es, i).len() == es.len() - i,
        forall|j: int|
            0 <= j < es.len() - i ==> clear_exprs_from(es, i)[j] == clear_expr(es[i + j]),
    decreases es.len() - i,
{
    if i < es.len() {
        lemma_clear_exprs_from(es, i + 1);
    }
}

/// Resolution only fills depth fields: the tree it returns clears back to
/// the cleared input.
pub proof fn lemma_res_expr_clears(e: ExprSpec, scs: ScopesSpec, fty: FunctionType, cty: ClassType)
    ensures
        match sp_res_expr(e, scs, fty, cty) {
            Ok(ev) => clear_expr(ev) == clear_expr(e),
            Err(_) => true,
        },
    decreases e, 0int,
{
    reveal(sp_res_expr);
    reveal(sp_res_exprs);
    match e {
        ExprSpec::Literal(l) => {},
        ExprSpec::Group(inner) => {
            lemma_res_expr_clears(*inner, scs, fty, cty);
        },
        ExprSpec::Unary { operator, expression } => {
            lemma_res_expr_clears(*expression, scs, fty, cty);
        },
        ExprSpec::Binary { left, operator, right } => {
            lemma_res_expr_clears(*left, scs, fty, cty);
            lemma_res_expr_clears(*right, scs, fty, cty);
        },
        ExprSpec::Logical { left, operator, right } => {
            lemma_res_expr_clears(*left, scs, fty, cty);
            lemma_res_expr_clears(*right, scs, fty, cty);
        },
        ExprSpec::Variable { name, resolved } => {},
        ExprSpec::Assign { name, value, resolved } => {
            lemma_res_expr_clears(*value, scs, fty, cty);
        },
        ExprSpec::Call { callee, args } => {
            lemma_res_expr_clears(*callee, scs, fty, cty);
            lemma_res_exprs_clears(args, 0, seq![], scs, fty, cty);
            match (sp_res_expr(e, scs, fty, cty), sp_res_exprs(args, 0, seq![], scs, fty, cty)) {
                (Ok(ev), Ok(avs)) => {
                    lemma_clear_exprs_from(avs, 0);
                    lemma_clear_exprs_from(args, 0);
                    assert(clear_exprs_from(avs, 0) =~= clear_exprs_from(args, 0));
                },
                _ => {},
            }
        },
        ExprSpec::SetProp { object, property, value } => {
            lemma_res_expr_clears(*object, scs, fty, cty);
            lemma_res_expr_clears(*value, scs, fty, cty);
        },
        ExprSpec::Get { object, name } => {
            lemma_res_expr_clears(*object, scs, fty, cty);
        },
        ExprSpec::This { resolved } => {},
        ExprSpec::Super { method, resolved } => {},
    }
}

/// The list version: the resolved arguments clear back to the cleared
/// originals, element by element past whatever is already in `acc`.
pub proof fn lemma_res_exprs_clears(
    es: Seq<ExprSpec>,
    i: int,
    acc: Seq<ExprSpec>,
    scs: ScopesSpec,
    fty: FunctionType,
    cty: ClassType,
)
    requires
        0 <= i <= es.len(),
    ensures
        match sp_res_exprs(es, i, acc, scs, fty, cty) {
            Ok(avs) => avs.len() == acc.len() + es.len() - i && (forall|j: int|
                0 <= j < acc.len() ==> avs[j] == acc[j]) && (forall|k: int|
                acc.len() <= k < avs.len() ==> clear_expr(#[trigger] avs[k]) == clear_expr(
                    es[i + k - acc.len()],
                )),
            Err(_) => true,
        },
    decreases es, es.len() - i,
{
    reveal(sp_res_exprs);
    reveal(sp_res_expr);
    if i < es.len() {
        lemma_res_expr_clears(es[i], scs, fty, cty);
        match sp_res_expr(es[i], scs, fty, cty) {
            Ok(ev) => {
                lemma_res_exprs_clears(es, i + 1, acc.push(ev), scs, fty, cty);
            },
            Err(_) => {},
        }
    }
}

/// Resolution never reads a depth annotation: resolving the cleared tree
/// gives exactly what resolving the original gives.
pub proof fn lemma_res_expr_of_clear(
    e: ExprSpec,
    scs: ScopesSpec,
    fty: FunctionType,
    cty: ClassType,
)
    ensures
        sp_res_expr(clear_expr(e), scs, fty, cty) == sp_res_expr(e, scs, fty, cty),
    decreases e, 0int,
{
    reveal(sp_res_expr);
    reveal(sp_res_exprs);
    match e {
        ExprSpec::Literal(l) => {},
        ExprSpec::Group(inner) => {
            lemma_res_expr_of_clear(*inner, scs, fty, cty);
        },
        ExprSpec::Unary { operator, expression } => {
            lemma_res_expr_of_clear(*expression, scs, fty, cty);
        },
        ExprSpec::Binary { left, operator, right } => {
            lemma_res_expr_of_clear(*left, scs, fty, cty);
            lemma_res_expr_of_clear(*right, scs, fty, cty);
        },
        ExprSpec::Logical { left, operator, right } => {
            lemma_res_expr_of_clear(*left, scs, fty, cty);
            lemma_res_expr_of_clear(*right, scs, fty, cty);
        },
        ExprSpec::Variable { name, resolved } => {},
        ExprSpec::Assign { name, value, resolved } => {
            lemma_res_expr_of_clear(*value, scs, fty, cty);
        },
        ExprSpec::Call { callee, args } => {
            lemma_res_expr_of_clear(*callee, scs, fty, cty);
            lemma_clear_exprs_from(args, 0);
            lemma_res_exprs_of_clear(args, 0, seq![], scs, fty, cty);
        },
        ExprSpec::SetProp { object, property, value } => {
            lemma_res_expr_of_clear(*object, scs, fty, cty);
            lemma_res_expr_of_clear(*value, scs, fty, cty);
        },
        ExprSpec::Get { object, name } => {
            lemma_res_expr_of_clear(*object, scs, fty, cty);
        },
        ExprSpec::This { resolved } => {},
        ExprSpec::Super { method, resolved } => {},
    }
}

/// The list version of annotation-blindness.
pub proof fn lemma_res_exprs_of_clear(
    es: Seq<ExprSpec>,
    i: int,
    acc: Seq<ExprSpec>,
    scs: ScopesSpec,
    fty: FunctionType,
    cty: ClassType,
)
    requires
        0 <= i <= es.len(),
    ensures
        sp_res_exprs(clear_exprs_from(es, 0), i, acc, scs, fty, cty) == sp_res_exprs(
            es,
            i,
            acc,
            scs,
            fty,
            cty,
        ),
    decreases es, es.len() - i,
{
    reveal(sp_res_exprs);
    reveal(sp_res_expr);
    lemma_clear_exprs_from(es, 0);
    if i < es.len() {
        lemma_res_expr_of_clear(es[i], scs, fty, cty);
        match sp_res_expr(es[i], scs, fty, cty) {
            Ok(ev) => {
                lemma_res_exprs_of_clear(es, i + 1, acc.push(ev), scs, fty, cty);
            },
            Err(_) => {},
        }
    }
}

/// Resolution preserves meaning for expressions: wiping the annotations off
/// a resolved expression and resolving again rebuilds exactly the same
/// annotated expression, so the re-resolved program behaves identically.
pub proof fn lemma_reresolve_expr(e: ExprSpec, scs: ScopesSpec, fty: FunctionType, cty: ClassType)
    ensures
        match sp_res_expr(e, scs, fty, cty) {
            Ok(ev) => sp_res_expr(clear_expr(ev), scs, fty, cty) == Ok::<
                ExprSpec,
                ResolverErrorSpec,
            >(ev),
            Err(_) => true,
        },
{
    match sp_res_expr(e, scs, fty, cty) {
        Ok(ev) => {
            lemma_res_expr_clears(e, scs, fty, cty);
            lemma_res_expr_of_clear(ev, scs, fty, cty);
            lemma_res_expr_of_clear(e, scs, fty, cty);
            assert(clear_expr(ev) == clear_expr(e));
            assert(sp_res_expr(clear_expr(ev), scs, fty, cty) == sp_res_expr(
                clear_expr(e),
                scs,
                fty,
                cty,
            ));
        },
        Err(_) => {},
    }
}

} // verus!
