//! The tree-walking evaluator.
//!
//! Environments, functions, classes and instances live in arenas inside the
//! interpreter and refer to one another by index, which both severs the
//! ownership cycles that closures create and keeps every reference checkable.
//! An environment's parent always has a smaller index than the environment
//! itself, so walks along enclosing chains terminate.  Execution carries a
//! step budget; a program that runs past it stops with a budget error rather
//! than diverging.

use vstd::prelude::*;

use crate::ast::{
    exprs_view_from, lemma_exprs_view_from, ExprSpec, Expression, Literal, LiteralSpec, Statement,
    StmtSpec,
};
use crate::numeric::{
    add_numbers, div_numbers, eq_numbers, ge_numbers, gt_numbers, le_numbers, lt_numbers,
    mul_numbers, neg_number, num_add, num_display, num_div, num_eq, num_ge, num_gt, num_le,
    num_lt, num_mul, num_neg, num_sub, number_of_int, sub_numbers, unix_time_millis,
};
use crate::resolver::Resolver;
use crate::text::{dec_str, push_dec};
use crate::token::TokenKind;

verus! {

/// The two classes of failure a program can end with.
pub use crate::ExitCode;

/// A runtime value: numbers as double bits, booleans, nil, strings, and
/// handles into the interpreter's arenas for functions, bound methods,
/// classes and instances.  The one native function, `clock`, is its own
/// value.
#[derive(Debug, Clone)]
pub enum Value {
    Number(u64),
    Boolean(bool),
    Nil,
    String(String),
    Function(usize),
    BoundMethod { function: usize, bound_env: usize },
    NativeClock,
    Class(usize),
    Instance(usize),
}

/// The mathematical image of a runtime value.
pub enum ValueSpec {
    Number(u64),
    Boolean(bool),
    Nil,
    String(Seq<char>),
    Function(usize),
    BoundMethod { function: usize, bound_env: usize },
    NativeClock,
    Class(usize),
    Instance(usize),
}

/// The mathematical image of a value.
pub open spec fn value_view(v: Value) -> ValueSpec {
    match v {
        Value::Number(bits) => ValueSpec::Number(bits),
        Value::Boolean(b) => ValueSpec::Boolean(b),
        Value::Nil => ValueSpec::Nil,
        Value::String(s) => ValueSpec::String(s@),
        Value::Function(f) => ValueSpec::Function(f),
        Value::BoundMethod { function, bound_env } => ValueSpec::BoundMethod {
            function,
            bound_env,
        },
        Value::NativeClock => ValueSpec::NativeClock,
        Value::Class(c) => ValueSpec::Class(c),
        Value::Instance(i) => ValueSpec::Instance(i),
    }
}

impl DeepView for Value {
    type V = ValueSpec;

    open spec fn deep_view(&self) -> ValueSpec {
        value_view(*self)
    }
}

/// How execution can stop early: a plain runtime failure with its exit
/// class, an undefined variable, a `return` travelling up to its call (not
/// an error, but carried on the same channel), or an exhausted step budget.
#[derive(Debug)]
pub enum InterpreterError {
    Message(String, ExitCode),
    UndefinedVariable(String),
    ReturnError(Value),
    OutOfFuel,
}

/// One environment: a mapping from names to values and an optional link to
/// the enclosing environment, always an earlier index in the arena.
pub struct Environment {
    pub enclosing: Option<usize>,
    pub values: Vec<(String, Value)>,
}

/// A declared function: parameters, body, the environment captured at
/// declaration, and whether it is a class initializer.
pub struct LoxFunction {
    pub name: String,
    pub params: Vec<String>,
    pub body: Vec<Statement>,
    pub env: usize,
    pub is_initializer: bool,
}

/// A declared class: its name, an optional superclass handle, and its
/// methods as function handles.
pub struct LoxClass {
    pub name: String,
    pub superclass: Option<usize>,
    pub methods: Vec<(String, usize)>,
}

/// An instance: its class and its fields.
pub struct LoxInstance {
    pub class: usize,
    pub fields: Vec<(String, Value)>,
}

/// Whether a value only refers to arena entries that exist.
pub open spec fn value_wf(v: ValueSpec, ne: int, nf: int, nc: int, ni: int) -> bool {
    match v {
        ValueSpec::Function(f) => f < nf,
        ValueSpec::BoundMethod { function, bound_env } => function < nf && bound_env < ne,
        ValueSpec::Class(c) => c < nc,
        ValueSpec::Instance(i) => i < ni,
        _ => true,
    }
}

/// The interpreter: the arenas, the handle of the current environment, and
/// everything printed so far.
pub struct Interpreter {
    pub envs: Vec<Environment>,
    pub funs: Vec<LoxFunction>,
    pub classes: Vec<LoxClass>,
    pub instances: Vec<LoxInstance>,
    pub current: usize,
    pub output: Vec<String>,
    pub clock_bits: u64,
}

impl Interpreter {
    /// The arena sizes, for stating which handles are meaningful.
    pub open spec fn ne(&self) -> int {
        self.envs@.len() as int
    }

    pub open spec fn nf(&self) -> int {
        self.funs@.len() as int
    }

    pub open spec fn nc(&self) -> int {
        self.classes@.len() as int
    }

    pub open spec fn ni(&self) -> int {
        self.instances@.len() as int
    }

    /// Whether one environment entry is well formed at its index: its link
    /// points strictly backwards and its values refer only to existing
    /// entries.
    pub open spec fn env_entry_wf(&self, j: int) -> bool {
        &&& (match self.envs@[j].enclosing {
            Some(p) => p < j,
            None => true,
        })
        &&& forall|k: int|
            0 <= k < self.envs@[j].values@.len() ==> value_wf(
                #[trigger] self.envs@[j].values@[k].1.deep_view(),
                self.ne(),
                self.nf(),
                self.nc(),
                self.ni(),
            )
    }

    /// Whether one class entry is well formed at its index: its superclass
    /// comes strictly earlier in the arena and its methods exist.
    pub open spec fn class_entry_wf(&self, j: int) -> bool {
        &&& (match self.classes@[j].superclass {
            Some(s) => s < j,
            None => true,
        })
        &&& forall|k: int|
            0 <= k < self.classes@[j].methods@.len() ==> (
            #[trigger] self.classes@[j].methods@[k].1) < self.nf()
    }

    /// The interpreter invariant: every handle anywhere points at an entry
    /// that exists, environment links only run backwards, and so do
    /// superclass links.
    pub open spec fn wf(&self) -> bool {
        &&& 0 < self.ne()
        &&& self.current < self.ne()
        &&& forall|j: int| 0 <= j < self.ne() ==> self.env_entry_wf(j)
        &&& forall|j: int| 0 <= j < self.nf() ==> (#[trigger] self.funs@[j].env) < self.ne()
        &&& forall|j: int| 0 <= j < self.nc() ==> self.class_entry_wf(j)
        &&& forall|j: int|
            0 <= j < self.ni() ==> (#[trigger] self.instances@[j].class) < self.nc()
        &&& forall|j: int, k: int|
            0 <= j < self.ni() && 0 <= k < self.instances@[j].fields@.len() ==> value_wf(
                #[trigger] self.instances@[j].fields@[k].1.deep_view(),
                self.ne(),
                self.nf(),
                self.nc(),
                self.ni(),
            )
    }

    /// Whether a value's handles all point into this interpreter's arenas.
    pub open spec fn value_ok(&self, v: ValueSpec) -> bool {
        value_wf(v, self.ne(), self.nf(), self.nc(), self.ni())
    }

    /// Whether the arenas of `post` extend those of `pre`: handles never
    /// dangle as execution proceeds, and printed output is only appended.
    pub open spec fn extends(post: Interpreter, pre: Interpreter) -> bool {
        &&& pre.ne() <= post.ne()
        &&& pre.nf() <= post.nf()
        &&& pre.nc() <= post.nc()
        &&& pre.ni() <= post.ni()
        &&& pre.output@.len() <= post.output@.len()
        &&& forall|j: int|
            0 <= j < pre.output@.len() ==> #[trigger] post.output@[j]@ == pre.output@[j]@
    }
}

/// The mathematical image of an execution stop.
pub enum InterpreterErrorSpec {
    Message(Seq<char>, ExitCode),
    UndefinedVariable(Seq<char>),
    ReturnError(ValueSpec),
    OutOfFuel,
}

impl DeepView for InterpreterError {
    type V = InterpreterErrorSpec;

    open spec fn deep_view(&self) -> InterpreterErrorSpec {
        match self {
            InterpreterError::Message(s, c) => InterpreterErrorSpec::Message(s@, *c),
            InterpreterError::UndefinedVariable(s) => InterpreterErrorSpec::UndefinedVariable(s@),
            InterpreterError::ReturnError(v) => InterpreterErrorSpec::ReturnError(v.deep_view()),
            InterpreterError::OutOfFuel => InterpreterErrorSpec::OutOfFuel,
        }
    }
}

/// Truthiness: `false` and `nil` are false; every other value is true.
pub open spec fn sp_truthy(v: ValueSpec) -> bool {
    match v {
        ValueSpec::Boolean(b) => b,
        ValueSpec::Nil => false,
        _ => true,
    }
}

/// Whether a value is truthy, exactly as `sp_truthy` says.
pub fn is_truthy(v: &Value) -> (r: bool)
    ensures
        r == sp_truthy(v.deep_view()),
{
    match v {
        Value::Boolean(b) => *b,
        Value::Nil => false,
        _ => true,
    }
}

/// Equality of runtime values: nil equals only nil, booleans by value,
/// numbers by IEEE equality, strings by content; every other pair,
/// functions, classes and instances included, is unequal.
pub open spec fn sp_equal(a: ValueSpec, b: ValueSpec) -> bool {
    match a {
        ValueSpec::Nil => b is Nil,
        ValueSpec::Boolean(x) => match b {
            ValueSpec::Boolean(y) => x == y,
            _ => false,
        },
        ValueSpec::Number(x) => match b {
            ValueSpec::Number(y) => num_eq(x, y),
            _ => false,
        },
        ValueSpec::String(x) => match b {
            ValueSpec::String(y) => x == y,
            _ => false,
        },
        _ => false,
    }
}

/// Whether two values are equal, exactly as `sp_equal` says.
pub fn is_equal(a: &Value, b: &Value) -> (r: bool)
    ensures
        r == sp_equal(a.deep_view(), b.deep_view()),
{
    match a {
        Value::Nil => match b {
            Value::Nil => true,
            _ => false,
        },
        Value::Boolean(x) => match b {
            Value::Boolean(y) => *x == *y,
            _ => false,
        },
        Value::Number(x) => match b {
            Value::Number(y) => eq_numbers(*x, *y),
            _ => false,
        },
        Value::String(x) => match b {
            Value::String(y) => crate::text::str_eq(x.as_str(), y.as_str()),
            _ => false,
        },
        _ => false,
    }
}

/// A copy of a value; handle values stay the same handles.
pub fn duplicate(v: &Value) -> (r: Value)
    ensures
        r.deep_view() == v.deep_view(),
{
    match v {
        Value::Number(bits) => Value::Number(*bits),
        Value::Boolean(b) => Value::Boolean(*b),
        Value::Nil => Value::Nil,
        Value::String(s) => Value::String(s.clone()),
        Value::Function(f) => Value::Function(*f),
        Value::BoundMethod { function, bound_env } => Value::BoundMethod {
            function: *function,
            bound_env: *bound_env,
        },
        Value::NativeClock => Value::NativeClock,
        Value::Class(c) => Value::Class(*c),
        Value::Instance(i) => Value::Instance(*i),
    }
}

/// What a binary operator yields on two evaluated operands: arithmetic and
/// comparison on numbers, `+` also concatenating strings, equality on any
/// pair, and a runtime error for every other combination.
pub open spec fn sp_binary(op: TokenKind, l: ValueSpec, r: ValueSpec) -> Result<
    ValueSpec,
    InterpreterErrorSpec,
> {
    if op == TokenKind::EqualEqual {
        Ok(ValueSpec::Boolean(sp_equal(l, r)))
    } else if op == TokenKind::BangEqual {
        Ok(ValueSpec::Boolean(!sp_equal(l, r)))
    } else {
        match (l, r) {
            (ValueSpec::Number(a), ValueSpec::Number(b)) => {
                if op == TokenKind::Plus {
                    Ok(ValueSpec::Number(num_add(a, b)))
                } else if op == TokenKind::Minus {
                    Ok(ValueSpec::Number(num_sub(a, b)))
                } else if op == TokenKind::Star {
                    Ok(ValueSpec::Number(num_mul(a, b)))
                } else if op == TokenKind::Slash {
                    Ok(ValueSpec::Number(num_div(a, b)))
                } else if op == TokenKind::Greater {
                    Ok(ValueSpec::Boolean(num_gt(a, b)))
                } else if op == TokenKind::Less {
                    Ok(ValueSpec::Boolean(num_lt(a, b)))
                } else if op == TokenKind::GreaterEqual {
                    Ok(ValueSpec::Boolean(num_ge(a, b)))
                } else if op == TokenKind::LessEqual {
                    Ok(ValueSpec::Boolean(num_le(a, b)))
                } else {
                    Err(
                        InterpreterErrorSpec::Message(
                            "Unsupported operation"@,
                            ExitCode::RunTimeError,
                        ),
                    )
                }
            },
            (ValueSpec::String(a), ValueSpec::String(b)) => {
                if op == TokenKind::Plus {
                    Ok(ValueSpec::String(a + b))
                } else {
                    Err(
                        InterpreterErrorSpec::Message(
                            "Unsupported operation"@,
                            ExitCode::RunTimeError,
                        ),
                    )
                }
            },
            _ => Err(
                InterpreterErrorSpec::Message("Unsupported operation"@, ExitCode::RunTimeError),
            ),
        }
    }
}

/// Applies a binary operator to two evaluated operands, exactly as
/// `sp_binary` describes it.
pub fn binary_op(op: TokenKind, l: Value, r: Value) -> (res: Result<Value, InterpreterError>)
    ensures
        match sp_binary(op, l.deep_view(), r.deep_view()) {
            Ok(v) => res is Ok && res->Ok_0.deep_view() == v,
            Err(e) => res is Err && res->Err_0.deep_view() == e,
        },
{
    if op == TokenKind::EqualEqual {
        return Ok(Value::Boolean(is_equal(&l, &r)));
    }
    if op == TokenKind::BangEqual {
        return Ok(Value::Boolean(!is_equal(&l, &r)));
    }
    match (l, r) {
        (Value::Number(a), Value::Number(b)) => {
            if op == TokenKind::Plus {
                Ok(Value::Number(add_numbers(a, b)))
            } else if op == TokenKind::Minus {
                Ok(Value::Number(sub_numbers(a, b)))
            } else if op == TokenKind::Star {
                Ok(Value::Number(mul_numbers(a, b)))
            } else if op == TokenKind::Slash {
                Ok(Value::Number(div_numbers(a, b)))
            } else if op == TokenKind::Greater {
                Ok(Value::Boolean(gt_numbers(a, b)))
            } else if op == TokenKind::Less {
                Ok(Value::Boolean(lt_numbers(a, b)))
            } else if op == TokenKind::GreaterEqual {
                Ok(Value::Boolean(ge_numbers(a, b)))
            } else if op == TokenKind::LessEqual {
                Ok(Value::Boolean(le_numbers(a, b)))
            } else {
                Err(
                    InterpreterError::Message(
                        String::from_str("Unsupported operation"),
                        ExitCode::RunTimeError,
                    ),
                )
            }
        },
        (Value::String(a), Value::String(b)) => {
            if op == TokenKind::Plus {
                Ok(Value::String(a.concat(b.as_str())))
            } else {
                Err(
                    InterpreterError::Message(
                        String::from_str("Unsupported operation"),
                        ExitCode::RunTimeError,
                    ),
                )
            }
        },
        _ => Err(
            InterpreterError::Message(
                String::from_str("Unsupported operation"),
                ExitCode::RunTimeError,
            ),
        ),
    }
}

/// The value of the binding for `name` among an environment's pairs, taking
/// the latest pair.
pub open spec fn sp_vals_find(vs: Seq<(Seq<char>, ValueSpec)>, name: Seq<char>) -> Option<
    ValueSpec,
>
    decreases vs.len(),
{
    if vs.len() == 0 {
        None
    } else if vs.last().0 == name {
        Some(vs.last().1)
    } else {
        sp_vals_find(vs.drop_last(), name)
    }
}

/// Looks a name up among an environment's pairs, exactly as `sp_vals_find`
/// describes it.
fn vals_find(vs: &Vec<(String, Value)>, name: &String) -> (r: Option<Value>)
    ensures
        match sp_vals_find(vs.deep_view(), name@) {
            Some(v) => r is Some && r->0.deep_view() == v,
            None => r is None,
        },
{
    let ghost m = vs.deep_view();
    let mut i: usize = vs.len();
    proof {
        assert(m.take(m.len() as int) =~= m);
    }
    while i > 0
        invariant
            i <= vs@.len(),
            m == vs.deep_view(),
            sp_vals_find(m, name@) == sp_vals_find(m.take(i as int), name@),
        decreases i,
    {
        i = i - 1;
        if vs[i].0 == *name {
            proof {
                assert(m.take(i + 1).last() == m[i as int]);
                assert(m[i as int].0 == name@);
            }
            return Some(duplicate(&vs[i].1));
        }
        proof {
            assert(m.take(i + 1).last() == m[i as int]);
            assert(m.take(i + 1).drop_last() =~= m.take(i as int));
        }
    }
    proof {
        assert(m.take(0) =~= Seq::<(Seq<char>, ValueSpec)>::empty());
    }
    None
}

/// A pair's worth of the binding list: which element a successful lookup
/// returns.
pub proof fn lemma_vals_find_in(vs: Seq<(Seq<char>, ValueSpec)>, name: Seq<char>)
    ensures
        match sp_vals_find(vs, name) {
            Some(v) => exists|k: int| 0 <= k < vs.len() && vs[k].1 == v,
            None => true,
        },
    decreases vs.len(),
{
    if vs.len() > 0 && vs.last().0 != name {
        lemma_vals_find_in(vs.drop_last(), name);
        match sp_vals_find(vs, name) {
            Some(v) => {
                let k = choose|k: int| 0 <= k < vs.drop_last().len() && vs.drop_last()[k].1 == v;
                assert(vs[k].1 == v);
            },
            None => {},
        }
    }
}

impl Interpreter {
    /// Renders a value the way `print` shows it, exactly as `m_display`
    /// describes: numbers in decimal, strings as their content, booleans
    /// and nil by name, functions and bound methods with their names (a
    /// bound method also names the class of its `this`), classes by name,
    /// instances by class name.
    pub fn display_value(&self, v: &Value) -> (r: String)
        requires
            self.wf(),
            self.value_ok(v.deep_view()),
        ensures
            r@ == m_display(self.model(), v.deep_view()),
    {
        match v {
            Value::Number(bits) => crate::numeric::display_number(*bits),
            Value::Boolean(b) => {
                if *b {
                    String::from_str("true")
                } else {
                    String::from_str("false")
                }
            },
            Value::Nil => String::from_str("nil"),
            Value::String(s) => {
                let mut out = String::new();
                out.append(s.as_str());
                out
            },
            Value::Function(f) => {
                let mut out = String::from_str("<fn ");
                out.append(self.funs[*f].name.as_str());
                out.append(">");
                out
            },
            Value::BoundMethod { function, bound_env } => {
                let mut out = String::from_str("<fn <bound method ");
                out.append(self.funs[*function].name.as_str());
                let this_key = String::from_str("this");
                let found = vals_find(&self.envs[*bound_env].values, &this_key);
                match found {
                    Some(Value::Instance(i)) => {
                        proof {
                            lemma_vals_find_in(
                                self.envs@[*bound_env as int].values.deep_view(),
                                "this"@,
                            );
                            assert(self.env_entry_wf(*bound_env as int));
                        }
                        out.append(" of ");
                        out.append(self.classes[self.instances[i].class].name.as_str());
                        out.append(" instance>>");
                    },
                    _ => {
                        out.append(">>");
                    },
                }
                out
            },
            Value::NativeClock => String::from_str("<fn clock>"),
            Value::Class(c) => {
                let mut out = String::new();
                out.append(self.classes[*c].name.as_str());
                out
            },
            Value::Instance(i) => {
                let mut out = String::new();
                out.append(self.classes[self.instances[*i].class].name.as_str());
                out.append(" instance");
                out
            },
        }
    }

    /// Appends a fresh environment to the arena and hands back its handle.
    #[verifier::rlimit(100)]
    #[verifier::spinoff_prover]
    fn new_env(&mut self, parent: Option<usize>) -> (r: usize)
        requires
            old(self).wf(),
            match parent {
                Some(p) => p < old(self).ne(),
                None => true,
            },
        ensures
            final(self).wf(),
            Interpreter::extends(*final(self), *old(self)),
            r as int == old(self).ne(),
            final(self).ne() == old(self).ne() + 1,
            final(self).nf() == old(self).nf(),
            final(self).nc() == old(self).nc(),
            final(self).ni() == old(self).ni(),
            final(self).current == old(self).current,
            final(self).output == old(self).output,
            final(self).funs == old(self).funs,
            final(self).classes == old(self).classes,
            final(self).instances == old(self).instances,
            forall|j: int| 0 <= j < old(self).ne() ==> final(self).envs@[j] == old(self).envs@[j],
            final(self).envs@[r as int].enclosing == parent,
            final(self).envs@[r as int].values@.len() == 0,
            final(self).model() == m_new_env(old(self).model(), parent),
    {
        let r = self.envs.len();
        self.envs.push(Environment { enclosing: parent, values: Vec::new() });
        proof {
            assert(self.model() =~~= m_new_env(old(self).model(), parent));
            assert forall|j: int| 0 <= j < self.ne() implies self.env_entry_wf(j) by {
                if j < old(self).ne() {
                    assert(old(self).env_entry_wf(j));
                    assert(self.envs@[j] == old(self).envs@[j]);
                    assert forall|k: int|
                        0 <= k < self.envs@[j].values@.len() implies value_wf(
                        #[trigger] self.envs@[j].values@[k].1.deep_view(),
                        self.ne(),
                        self.nf(),
                        self.nc(),
                        self.ni(),
                    ) by {
                        assert(value_wf(
                            old(self).envs@[j].values@[k].1.deep_view(),
                            old(self).ne(),
                            old(self).nf(),
                            old(self).nc(),
                            old(self).ni(),
                        ));
                    }
                } else {
                    assert(self.envs@[j].values@.len() == 0);
                }
            }
            assert forall|j: int| 0 <= j < self.nc() implies self.class_entry_wf(j) by {
                assert(old(self).class_entry_wf(j));
            }
            assert forall|j: int, k: int|
                0 <= j < self.ni() && 0 <= k < self.instances@[j].fields@.len() implies value_wf(
                #[trigger] self.instances@[j].fields@[k].1.deep_view(),
                self.ne(),
                self.nf(),
                self.nc(),
                self.ni(),
            ) by {
                assert(value_wf(
                    old(self).instances@[j].fields@[k].1.deep_view(),
                    old(self).ne(),
                    old(self).nf(),
                    old(self).nc(),
                    old(self).ni(),
                ));
            }
        }
        r
    }

    /// Binds a name in one environment; a later binding for the same name
    /// shadows an earlier one, which is exactly how insertion behaves.
    #[verifier::rlimit(100)]
    #[verifier::spinoff_prover]
    fn env_define(&mut self, env: usize, name: &String, v: Value)
        requires
            old(self).wf(),
            env < old(self).ne(),
            old(self).value_ok(v.deep_view()),
        ensures
            final(self).wf(),
            Interpreter::extends(*final(self), *old(self)),
            final(self).ne() == old(self).ne(),
            final(self).nf() == old(self).nf(),
            final(self).nc() == old(self).nc(),
            final(self).ni() == old(self).ni(),
            final(self).current == old(self).current,
            final(self).output == old(self).output,
            final(self).funs == old(self).funs,
            final(self).classes == old(self).classes,
            final(self).instances == old(self).instances,
            forall|j: int|
                0 <= j < old(self).ne() && j != env ==> final(self).envs@[j] == old(self).envs@[j],
            final(self).envs@[env as int].enclosing == old(self).envs@[env as int].enclosing,
            final(self).envs@[env as int].values.deep_view() == old(self).envs@[
                env as int
            ].values.deep_view().push((name@, v.deep_view())),
            final(self).model() == m_define(old(self).model(), env, name@, v.deep_view()),
    {
        let ghost vview = v.deep_view();
        let mut entry = Environment { enclosing: None, values: Vec::new() };
        self.envs.set_and_swap(env, &mut entry);
        entry.values.push((name.clone(), v));
        self.envs.set_and_swap(env, &mut entry);
        proof {
            assert(self.envs@[env as int].values@ =~= old(self).envs@[env as int].values@.push(
                self.envs@[env as int].values@.last(),
            ));
            assert(self.envs@[env as int].values.deep_view() =~= old(self).envs@[
                env as int
            ].values.deep_view().push((name@, vview)));
            assert(self.model() =~~= m_define(old(self).model(), env, name@, vview));
            assert forall|j: int| 0 <= j < self.ne() implies self.env_entry_wf(j) by {
                assert(old(self).env_entry_wf(j));
                if j == env {
                    let nvs = self.envs@[j].values@;
                    let ovs = old(self).envs@[j].values@;
                    assert forall|k: int|
                        0 <= k < nvs.len() implies value_wf(
                        #[trigger] nvs[k].1.deep_view(),
                        self.ne(),
                        self.nf(),
                        self.nc(),
                        self.ni(),
                    ) by {
                        if k < ovs.len() {
                            assert(nvs[k] == ovs[k]);
                            assert(value_wf(
                                old(self).envs@[j].values@[k].1.deep_view(),
                                old(self).ne(),
                                old(self).nf(),
                                old(self).nc(),
                                old(self).ni(),
                            ));
                        } else {
                            assert(nvs[k].1.deep_view() == vview);
                        }
                    }
                } else {
                    assert(self.envs@[j] == old(self).envs@[j]);
                    assert forall|k: int|
                        0 <= k < self.envs@[j].values@.len() implies value_wf(
                        #[trigger] self.envs@[j].values@[k].1.deep_view(),
                        self.ne(),
                        self.nf(),
                        self.nc(),
                        self.ni(),
                    ) by {
                        assert(value_wf(
                            old(self).envs@[j].values@[k].1.deep_view(),
                            old(self).ne(),
                            old(self).nf(),
                            old(self).nc(),
                            old(self).ni(),
                        ));
                    }
                }
            }
            assert forall|j: int| 0 <= j < self.nc() implies self.class_entry_wf(j) by {
                assert(old(self).class_entry_wf(j));
            }
            assert forall|j: int, k: int|
                0 <= j < self.ni() && 0 <= k < self.instances@[j].fields@.len() implies value_wf(
                #[trigger] self.instances@[j].fields@[k].1.deep_view(),
                self.ne(),
                self.nf(),
                self.nc(),
                self.ni(),
            ) by {
                assert(value_wf(
                    old(self).instances@[j].fields@[k].1.deep_view(),
                    old(self).ne(),
                    old(self).nf(),
                    old(self).nc(),
                    old(self).ni(),
                ));
            }
        }
    }

    /// The environment `d` links up from `e`, or -1 when the chain is
    /// shorter than that.
    pub open spec fn sp_ancestor(&self, e: int, d: int) -> int
        decreases d,
    {
        if d <= 0 {
            e
        } else if 0 <= e < self.ne() {
            match self.envs@[e].enclosing {
                Some(p) => self.sp_ancestor(p as int, d - 1),
                None => -1,
            }
        } else {
            -1
        }
    }

    /// An ancestor of a real environment is a real environment or -1.
    pub proof fn lemma_ancestor_range(&self, e: int, d: int)
        requires
            self.wf(),
            0 <= e < self.ne(),
        ensures
            -1 <= self.sp_ancestor(e, d) < self.ne(),
        decreases d,
    {
        if d > 0 {
            match self.envs@[e].enclosing {
                Some(p) => {
                    assert(self.env_entry_wf(e));
                    self.lemma_ancestor_range(p as int, d - 1);
                },
                None => {},
            }
        }
    }

    /// Walks exactly `d` enclosing links, then reads the name there,
    /// exactly as `sp_ancestor` and `sp_vals_find` describe.
    fn env_get_at(&self, d: usize, name: &String) -> (r: Option<Value>)
        requires
            self.wf(),
        ensures
            ({
                let anc = self.sp_ancestor(self.current as int, d as int);
                match r {
                    Some(v) => anc >= 0 && sp_vals_find(
                        self.envs@[anc].values.deep_view(),
                        name@,
                    ) == Some(v.deep_view()) && self.value_ok(v.deep_view()),
                    None => anc < 0 || sp_vals_find(self.envs@[anc].values.deep_view(), name@)
                        is None,
                }
            }),
            (match r {
                Some(v) => Some(v.deep_view()),
                None => None,
            }) == m_get_at(self.model(), d as int, name@),
    {
        let mut e = self.current;
        let mut steps: usize = 0;
        proof {
            self.lemma_ancestor_range(self.current as int, d as int);
            lemma_ancestor_model(*self, self.current as int, d as int);
        }
        while steps < d
            invariant
                self.wf(),
                e < self.ne(),
                steps <= d,
                self.sp_ancestor(self.current as int, d as int) == self.sp_ancestor(
                    e as int,
                    (d - steps) as int,
                ),
            decreases d - steps,
        {
            proof {
                assert(self.env_entry_wf(e as int));
                self.lemma_ancestor_range(self.current as int, d as int);
                lemma_ancestor_model(*self, self.current as int, d as int);
            }
            match self.envs[e].enclosing {
                Some(p) => {
                    e = p;
                    steps = steps + 1;
                },
                None => {
                    return None;
                },
            }
        }
        proof {
            self.lemma_ancestor_range(self.current as int, d as int);
            lemma_ancestor_model(*self, self.current as int, d as int);
        }
        let found = vals_find(&self.envs[e].values, name);
        proof {
            match sp_vals_find(self.envs@[e as int].values.deep_view(), name@) {
                Some(v) => {
                    lemma_vals_find_in(self.envs@[e as int].values.deep_view(), name@);
                    assert(self.env_entry_wf(e as int));
                },
                None => {},
            }
        }
        found
    }

    /// Walks exactly `d` enclosing links, then writes the name there; true
    /// when the chain was long enough.
    fn env_assign_at(&mut self, d: usize, name: &String, v: Value) -> (r: bool)
        requires
            old(self).wf(),
            old(self).value_ok(v.deep_view()),
        ensures
            final(self).wf(),
            Interpreter::extends(*final(self), *old(self)),
            final(self).ne() == old(self).ne(),
            final(self).nf() == old(self).nf(),
            final(self).nc() == old(self).nc(),
            final(self).ni() == old(self).ni(),
            final(self).current == old(self).current,
            final(self).output == old(self).output,
            (final(self).model(), r) == m_assign_at(
                old(self).model(),
                d as int,
                name@,
                v.deep_view(),
            ),
    {
        proof {
            self.lemma_ancestor_range(self.current as int, d as int);
            lemma_ancestor_model(*self, self.current as int, d as int);
        }
        let mut e = self.current;
        let mut steps: usize = 0;
        while steps < d
            invariant
                self.wf(),
                self.envs == old(self).envs,
                *self == *old(self),
                e < self.ne(),
                steps <= d,
                self.sp_ancestor(self.current as int, d as int) == self.sp_ancestor(
                    e as int,
                    (d - steps) as int,
                ),
            decreases d - steps,
        {
            proof {
                assert(self.env_entry_wf(e as int));
                self.lemma_ancestor_range(self.current as int, d as int);
                lemma_ancestor_model(*self, self.current as int, d as int);
            }
            match self.envs[e].enclosing {
                Some(p) => {
                    e = p;
                    steps = steps + 1;
                },
                None => {
                    return false;
                },
            }
        }
        proof {
            self.lemma_ancestor_range(self.current as int, d as int);
            lemma_ancestor_model(*self, self.current as int, d as int);
        }
        self.env_define(e, name, v);
        true
    }

    /// Reads a name, walking outward from an environment through its
    /// enclosing chain.
    fn env_get_from(&self, start: usize, name: &String) -> (r: Option<Value>)
        requires
            self.wf(),
            start < self.ne(),
        ensures
            match r {
                Some(v) => self.value_ok(v.deep_view()),
                None => true,
            },
            (match r {
                Some(v) => Some(v.deep_view()),
                None => None,
            }) == m_get_walk(self.model(), start as int, name@),
        decreases start,
    {
        let found = vals_find(&self.envs[start].values, name);
        match found {
            Some(v) => {
                proof {
                    lemma_vals_find_in(self.envs@[start as int].values.deep_view(), name@);
                    assert(self.env_entry_wf(start as int));
                }
                Some(v)
            },
            None => {
                proof {
                    assert(self.env_entry_wf(start as int));
                }
                match self.envs[start].enclosing {
                    Some(p) => self.env_get_from(p, name),
                    None => None,
                }
            },
        }
    }

    /// Writes a name into the innermost enclosing environment that already
    /// binds it, walking outward; false when none does.
    fn env_assign_walk(&mut self, start: usize, name: &String, v: Value) -> (r: bool)
        requires
            old(self).wf(),
            start < old(self).ne(),
            old(self).value_ok(v.deep_view()),
        ensures
            final(self).wf(),
            Interpreter::extends(*final(self), *old(self)),
            final(self).ne() == old(self).ne(),
            final(self).nf() == old(self).nf(),
            final(self).nc() == old(self).nc(),
            final(self).ni() == old(self).ni(),
            final(self).current == old(self).current,
            final(self).output == old(self).output,
            (final(self).model(), r) == m_assign_walk(
                old(self).model(),
                start as int,
                name@,
                v.deep_view(),
            ),
        decreases start,
    {
        let found = vals_find(&self.envs[start].values, name);
        match found {
            Some(_) => {
                self.env_define(start, name, v);
                true
            },
            None => {
                proof {
                    assert(self.env_entry_wf(start as int));
                }
                match self.envs[start].enclosing {
                    Some(p) => self.env_assign_walk(p, name, v),
                    None => false,
                }
            },
        }
    }

    /// Looks a method up on a class, walking the superclass chain, exactly
    /// as `m_find_method` describes it.
    fn find_method(&self, class: usize, name: &String) -> (r: Option<usize>)
        requires
            self.wf(),
            class < self.nc(),
        ensures
            match r {
                Some(f) => (f as int) < self.nf(),
                None => true,
            },
            r == m_find_method(self.model(), class as int, name@),
        decreases class,
    {
        proof {
            assert(self.class_entry_wf(class as int));
        }
        let ms = &self.classes[class].methods;
        let mut i: usize = 0;
        while i < ms.len()
            invariant
                self.wf(),
                class < self.nc(),
                ms == &self.classes@[class as int].methods,
                i <= ms@.len(),
                m_methods_find(ms.deep_view(), 0, name@) == m_methods_find(
                    ms.deep_view(),
                    i as int,
                    name@,
                ),
            decreases ms@.len() - i,
        {
            proof {
                assert(self.class_entry_wf(class as int));
            }
            if crate::text::str_eq(ms[i].0.as_str(), name.as_str()) {
                proof {
                    assert(ms.deep_view()[i as int].0 == name@);
                }
                return Some(ms[i].1);
            }
            i = i + 1;
        }
        match self.classes[class].superclass {
            Some(s) => self.find_method(s, name),
            None => None,
        }
    }
}

/// The mathematical image of one environment.
#[verifier::ext_equal]
pub struct EnvSpec {
    pub enclosing: Option<usize>,
    pub values: Seq<(Seq<char>, ValueSpec)>,
}

/// The mathematical image of one declared function.
#[verifier::ext_equal]
pub struct FunSpec {
    pub name: Seq<char>,
    pub params: Seq<Seq<char>>,
    pub body: Seq<StmtSpec>,
    pub env: usize,
    pub is_initializer: bool,
}

/// The mathematical image of one declared class.
#[verifier::ext_equal]
pub struct ClassSpec {
    pub name: Seq<char>,
    pub superclass: Option<usize>,
    pub methods: Seq<(Seq<char>, usize)>,
}

/// The mathematical image of one instance.
#[verifier::ext_equal]
pub struct InstSpec {
    pub class: usize,
    pub fields: Seq<(Seq<char>, ValueSpec)>,
}

/// The mathematical image of the whole interpreter state.
#[verifier::ext_equal]
pub struct InterpSpec {
    pub envs: Seq<EnvSpec>,
    pub funs: Seq<FunSpec>,
    pub classes: Seq<ClassSpec>,
    pub instances: Seq<InstSpec>,
    pub current: usize,
    pub output: Seq<Seq<char>>,
    pub clock_bits: u64,
}

impl Environment {
    pub open spec fn model(&self) -> EnvSpec {
        EnvSpec { enclosing: self.enclosing, values: self.values.deep_view() }
    }
}

impl LoxFunction {
    pub open spec fn model(&self) -> FunSpec {
        FunSpec {
            name: self.name@,
            params: self.params.deep_view(),
            body: crate::ast::stmts_view_from(self.body@, 0),
            env: self.env,
            is_initializer: self.is_initializer,
        }
    }
}

impl LoxClass {
    pub open spec fn model(&self) -> ClassSpec {
        ClassSpec { name: self.name@, superclass: self.superclass, methods: self.methods.deep_view() }
    }
}

impl LoxInstance {
    pub open spec fn model(&self) -> InstSpec {
        InstSpec { class: self.class, fields: self.fields.deep_view() }
    }
}

impl Interpreter {
    /// The mathematical image of the interpreter: every arena elementwise,
    /// the cursor, the printed lines, and the clock reading taken at
    /// construction.
    pub open spec fn model(&self) -> InterpSpec {
        InterpSpec {
            envs: Seq::new(self.envs@.len(), |i: int| self.envs@[i].model()),
            funs: Seq::new(self.funs@.len(), |i: int| self.funs@[i].model()),
            classes: Seq::new(self.classes@.len(), |i: int| self.classes@[i].model()),
            instances: Seq::new(self.instances@.len(), |i: int| self.instances@[i].model()),
            current: self.current,
            output: Seq::new(self.output@.len(), |i: int| self.output@[i]@),
            clock_bits: self.clock_bits,
        }
    }
}

/// The image of an evaluation result.
pub open spec fn res_view(r: Result<Value, InterpreterError>) -> Result<
    ValueSpec,
    InterpreterErrorSpec,
> {
    match r {
        Ok(v) => Ok(v.deep_view()),
        Err(e) => Err(e.deep_view()),
    }
}

/// The image of a statement outcome.
pub open spec fn unit_res_view(r: Result<(), InterpreterError>) -> Result<
    (),
    InterpreterErrorSpec,
> {
    match r {
        Ok(u) => Ok(u),
        Err(e) => Err(e.deep_view()),
    }
}

/// The image of an argument-list outcome.
pub open spec fn args_res_view(r: Result<Vec<Value>, InterpreterError>) -> Result<
    Seq<ValueSpec>,
    InterpreterErrorSpec,
> {
    match r {
        Ok(vs) => Ok(vs.deep_view()),
        Err(e) => Err(e.deep_view()),
    }
}

/// A fresh environment appended to the arena.
pub open spec fn m_new_env(st: InterpSpec, parent: Option<usize>) -> InterpSpec {
    InterpSpec { envs: st.envs.push(EnvSpec { enclosing: parent, values: seq![] }), ..st }
}

/// A binding written into one environment; a later pair shadows an earlier
/// one, which is how insertion behaves.
pub open spec fn m_define(st: InterpSpec, env: usize, name: Seq<char>, v: ValueSpec) -> InterpSpec {
    if env < st.envs.len() {
        InterpSpec {
            envs: st.envs.update(
                env as int,
                EnvSpec {
                    enclosing: st.envs[env as int].enclosing,
                    values: st.envs[env as int].values.push((name, v)),
                },
            ),
            ..st
        }
    } else {
        st
    }
}

/// The environment `d` links up from `e`, or -1 when the chain is shorter.
pub open spec fn m_ancestor(st: InterpSpec, e: int, d: int) -> int
    decreases d,
{
    if d <= 0 {
        e
    } else if 0 <= e < st.envs.len() {
        match st.envs[e].enclosing {
            Some(p) => m_ancestor(st, p as int, d - 1),
            None => -1,
        }
    } else {
        -1
    }
}

/// Reading a name exactly `d` links up from the current environment.
pub open spec fn m_get_at(st: InterpSpec, d: int, name: Seq<char>) -> Option<ValueSpec> {
    let anc = m_ancestor(st, st.current as int, d);
    if 0 <= anc < st.envs.len() {
        sp_vals_find(st.envs[anc].values, name)
    } else {
        None
    }
}

/// Writing a name exactly `d` links up from the current environment; false
/// (and no change) when the chain is shorter than `d`.
pub open spec fn m_assign_at(st: InterpSpec, d: int, name: Seq<char>, v: ValueSpec) -> (
    InterpSpec,
    bool,
) {
    let anc = m_ancestor(st, st.current as int, d);
    if 0 <= anc < st.envs.len() {
        (m_define(st, anc as usize, name, v), true)
    } else {
        (st, false)
    }
}

/// Reading a name from the nearest environment along the enclosing chain
/// that binds it; `None` iff no environment in the chain binds it.
pub open spec fn m_get_walk(st: InterpSpec, e: int, name: Seq<char>) -> Option<ValueSpec>
    decreases e,
{
    if 0 <= e < st.envs.len() {
        match sp_vals_find(st.envs[e].values, name) {
            Some(v) => Some(v),
            None => match st.envs[e].enclosing {
                Some(p) => if p < e {
                    m_get_walk(st, p as int, name)
                } else {
                    None
                },
                None => None,
            },
        }
    } else {
        None
    }
}

/// Writing a name into the nearest environment along the enclosing chain
/// that already binds it; false (and no change) when none does.
pub open spec fn m_assign_walk(st: InterpSpec, e: int, name: Seq<char>, v: ValueSpec) -> (
    InterpSpec,
    bool,
)
    decreases e,
{
    if 0 <= e < st.envs.len() {
        match sp_vals_find(st.envs[e].values, name) {
            Some(_) => (m_define(st, e as usize, name, v), true),
            None => match st.envs[e].enclosing {
                Some(p) => if p < e {
                    m_assign_walk(st, p as int, name, v)
                } else {
                    (st, false)
                },
                None => (st, false),
            },
        }
    } else {
        (st, false)
    }
}

/// The first method of the given name in a method list, scanning forward.
pub open spec fn m_methods_find(ms: Seq<(Seq<char>, usize)>, i: int, name: Seq<char>) -> Option<
    usize,
>
    decreases ms.len() - i,
{
    if i < 0 || i >= ms.len() {
        None
    } else if ms[i].0 == name {
        Some(ms[i].1)
    } else {
        m_methods_find(ms, i + 1, name)
    }
}

/// Method lookup on a class, falling through to its superclass chain.
pub open spec fn m_find_method(st: InterpSpec, class: int, name: Seq<char>) -> Option<usize>
    decreases class,
{
    if 0 <= class < st.classes.len() {
        match m_methods_find(st.classes[class].methods, 0, name) {
            Some(f) => Some(f),
            None => match st.classes[class].superclass {
                Some(s) => if (s as int) < class {
                    m_find_method(st, s as int, name)
                } else {
                    None
                },
                None => None,
            },
        }
    } else {
        None
    }
}

/// A fresh function appended to the arena.
pub open spec fn m_push_fun(st: InterpSpec, f: FunSpec) -> InterpSpec {
    InterpSpec { funs: st.funs.push(f), ..st }
}

/// A fresh class appended to the arena.
pub open spec fn m_push_class(st: InterpSpec, c: ClassSpec) -> InterpSpec {
    InterpSpec { classes: st.classes.push(c), ..st }
}

/// A fresh, fieldless instance of a class appended to the arena.
pub open spec fn m_push_instance(st: InterpSpec, class: usize) -> InterpSpec {
    InterpSpec { instances: st.instances.push(InstSpec { class, fields: seq![] }), ..st }
}

/// A field written on an instance.
pub open spec fn m_set_field(st: InterpSpec, inst: usize, name: Seq<char>, v: ValueSpec) -> InterpSpec {
    if inst < st.instances.len() {
        InterpSpec {
            instances: st.instances.update(
                inst as int,
                InstSpec {
                    class: st.instances[inst as int].class,
                    fields: st.instances[inst as int].fields.push((name, v)),
                },
            ),
            ..st
        }
    } else {
        st
    }
}

/// Binding a method to an instance: a fresh environment holding `this`
/// encloses the method's captured environment, and the bound method carries
/// its handle.
pub open spec fn m_bind(st: InterpSpec, m: usize, inst: usize) -> (InterpSpec, ValueSpec) {
    let benv = st.envs.len() as usize;
    let st1 = m_new_env(st, Some(if (m as int) < st.funs.len() {
        st.funs[m as int].env
    } else {
        0
    }));
    let st2 = m_define(st1, benv, "this"@, ValueSpec::Instance(inst));
    (st2, ValueSpec::BoundMethod { function: m, bound_env: benv })
}

/// How a value prints: numbers in decimal, strings as content, booleans and
/// nil by name, functions and bound methods with their names (a bound
/// method also names the class of its `this`), classes by name, instances
/// by class name.
pub open spec fn m_display(st: InterpSpec, v: ValueSpec) -> Seq<char> {
    match v {
        ValueSpec::Number(bits) => num_display(bits),
        ValueSpec::Boolean(b) => if b {
            "true"@
        } else {
            "false"@
        },
        ValueSpec::Nil => "nil"@,
        ValueSpec::String(s) => s,
        ValueSpec::Function(f) => "<fn "@ + st.funs[f as int].name + ">"@,
        ValueSpec::BoundMethod { function, bound_env } => {
            let fname = st.funs[function as int].name;
            match sp_vals_find(st.envs[bound_env as int].values, "this"@) {
                Some(ValueSpec::Instance(i)) => "<fn <bound method "@ + fname + " of "@
                    + st.classes[st.instances[i as int].class as int].name + " instance>>"@,
                _ => "<fn <bound method "@ + fname + ">>"@,
            }
        },
        ValueSpec::NativeClock => "<fn clock>"@,
        ValueSpec::Class(c) => st.classes[c as int].name,
        ValueSpec::Instance(i) => st.classes[st.instances[i as int].class as int].name
            + " instance"@,
    }
}

/// The message for a call with the wrong number of arguments.
pub open spec fn m_arity_msg(expected: nat, got: nat) -> Seq<char> {
    "Expected "@ + dec_str(expected) + " arguments but got "@ + dec_str(got) + "."@
}


/// The model's ancestor walk agrees with the interpreter's.
pub proof fn lemma_ancestor_model(it: Interpreter, e: int, d: int)
    ensures
        m_ancestor(it.model(), e, d) == it.sp_ancestor(e, d),
    decreases d,
{
    if d > 0 && 0 <= e < it.ne() {
        match it.envs@[e].enclosing {
            Some(p) => {
                lemma_ancestor_model(it, p as int, d - 1);
            },
            None => {},
        }
    }
}

/// Whether an error's payload refers only to existing arena entries.
pub open spec fn err_ok_for(it: Interpreter, e: InterpreterErrorSpec) -> bool {
    match e {
        InterpreterErrorSpec::ReturnError(v) => it.value_ok(v),
        _ => true,
    }
}

/// Handle bounds only grow, so a value fine for the earlier state is fine
/// for the later one.
pub proof fn lemma_value_ok_mono(pre: Interpreter, post: Interpreter, v: ValueSpec)
    requires
        pre.value_ok(v),
        pre.ne() <= post.ne(),
        pre.nf() <= post.nf(),
        pre.nc() <= post.nc(),
        pre.ni() <= post.ni(),
    ensures
        post.value_ok(v),
{
}

/// `extends` composes.
pub proof fn lemma_extends_trans(a: Interpreter, b: Interpreter, c: Interpreter)
    requires
        Interpreter::extends(c, b),
        Interpreter::extends(b, a),
    ensures
        Interpreter::extends(c, a),
{
}

impl Interpreter {
    /// A fresh interpreter: one global environment holding the native
    /// `clock`, nothing printed yet.
    pub fn new() -> (r: Interpreter)
        ensures
            r.wf(),
            r.output@.len() == 0,
            r.current == 0,
            r.model() == m_fresh(r.clock_bits),
    {
        let ms = unix_time_millis();
        let bits = div_numbers(number_of_int(ms), number_of_int(1000));
        let mut values: Vec<(String, Value)> = Vec::new();
        values.push((String::from_str("clock"), Value::NativeClock));
        let mut envs: Vec<Environment> = Vec::new();
        envs.push(Environment { enclosing: None, values });
        let r = Interpreter {
            envs,
            funs: Vec::new(),
            classes: Vec::new(),
            instances: Vec::new(),
            current: 0,
            output: Vec::new(),
            clock_bits: bits,
        };
        proof {
            assert forall|j: int| 0 <= j < r.ne() implies r.env_entry_wf(j) by {
                assert(r.envs@[0].values@.len() == 1);
            }
            assert(r.model() =~~= m_fresh(r.clock_bits));
        }
        r
    }

    /// Appends a function to the arena.
    #[verifier::rlimit(100)]
    #[verifier::spinoff_prover]
    fn push_fun(&mut self, f: LoxFunction) -> (r: usize)
        requires
            old(self).wf(),
            f.env < old(self).ne(),
        ensures
            final(self).wf(),
            Interpreter::extends(*final(self), *old(self)),
            r as int == old(self).nf(),
            final(self).nf() == old(self).nf() + 1,
            final(self).ne() == old(self).ne(),
            final(self).nc() == old(self).nc(),
            final(self).ni() == old(self).ni(),
            final(self).current == old(self).current,
            final(self).output == old(self).output,
            final(self).envs == old(self).envs,
            final(self).classes == old(self).classes,
            final(self).instances == old(self).instances,
            final(self).funs@[r as int].env == f.env,
            forall|j: int| 0 <= j < old(self).nf() ==> final(self).funs@[j] == old(self).funs@[j],
            final(self).model() == m_push_fun(old(self).model(), f.model()),
    {
        let r = self.funs.len();
        self.funs.push(f);
        proof {
            assert(self.model() =~~= m_push_fun(old(self).model(), f.model()));
            assert forall|j: int| 0 <= j < self.ne() implies self.env_entry_wf(j) by {
                assert(old(self).env_entry_wf(j));
                assert forall|k: int|
                    0 <= k < self.envs@[j].values@.len() implies value_wf(
                    #[trigger] self.envs@[j].values@[k].1.deep_view(),
                    self.ne(),
                    self.nf(),
                    self.nc(),
                    self.ni(),
                ) by {
                    assert(value_wf(
                        old(self).envs@[j].values@[k].1.deep_view(),
                        old(self).ne(),
                        old(self).nf(),
                        old(self).nc(),
                        old(self).ni(),
                    ));
                }
            }
            assert forall|j: int| 0 <= j < self.nc() implies self.class_entry_wf(j) by {
                assert(old(self).class_entry_wf(j));
            }
            assert forall|j: int, k: int|
                0 <= j < self.ni() && 0 <= k < self.instances@[j].fields@.len() implies value_wf(
                #[trigger] self.instances@[j].fields@[k].1.deep_view(),
                self.ne(),
                self.nf(),
                self.nc(),
                self.ni(),
            ) by {
                assert(value_wf(
                    old(self).instances@[j].fields@[k].1.deep_view(),
                    old(self).ne(),
                    old(self).nf(),
                    old(self).nc(),
                    old(self).ni(),
                ));
            }
        }
        r
    }

    /// Appends a class to the arena.
    #[verifier::rlimit(100)]
    #[verifier::spinoff_prover]
    fn push_class(&mut self, c: LoxClass) -> (r: usize)
        requires
            old(self).wf(),
            match c.superclass {
                Some(s) => s < old(self).nc(),
                None => true,
            },
            forall|k: int| 0 <= k < c.methods@.len() ==> (#[trigger] c.methods@[k].1) < old(
                self,
            ).nf(),
        ensures
            final(self).wf(),
            Interpreter::extends(*final(self), *old(self)),
            r as int == old(self).nc(),
            final(self).nc() == old(self).nc() + 1,
            final(self).ne() == old(self).ne(),
            final(self).nf() == old(self).nf(),
            final(self).ni() == old(self).ni(),
            final(self).current == old(self).current,
            final(self).output == old(self).output,
            final(self).envs == old(self).envs,
            final(self).funs == old(self).funs,
            final(self).instances == old(self).instances,
            final(self).model() == m_push_class(old(self).model(), c.model()),
    {
        let r = self.classes.len();
        self.classes.push(c);
        proof {
            assert(self.model() =~~= m_push_class(old(self).model(), c.model()));
            assert forall|j: int| 0 <= j < self.ne() implies self.env_entry_wf(j) by {
                assert(old(self).env_entry_wf(j));
                assert forall|k: int|
                    0 <= k < self.envs@[j].values@.len() implies value_wf(
                    #[trigger] self.envs@[j].values@[k].1.deep_view(),
                    self.ne(),
                    self.nf(),
                    self.nc(),
                    self.ni(),
                ) by {
                    assert(value_wf(
                        old(self).envs@[j].values@[k].1.deep_view(),
                        old(self).ne(),
                        old(self).nf(),
                        old(self).nc(),
                        old(self).ni(),
                    ));
                }
            }
            assert forall|j: int| 0 <= j < self.nc() implies self.class_entry_wf(j) by {
                if j < old(self).nc() {
                    assert(old(self).class_entry_wf(j));
                }
            }
            assert forall|j: int, k: int|
                0 <= j < self.ni() && 0 <= k < self.instances@[j].fields@.len() implies value_wf(
                #[trigger] self.instances@[j].fields@[k].1.deep_view(),
                self.ne(),
                self.nf(),
                self.nc(),
                self.ni(),
            ) by {
                assert(value_wf(
                    old(self).instances@[j].fields@[k].1.deep_view(),
                    old(self).ne(),
                    old(self).nf(),
                    old(self).nc(),
                    old(self).ni(),
                ));
            }
        }
        r
    }

    /// Appends a fresh instance of a class to the arena.
    #[verifier::rlimit(100)]
    #[verifier::spinoff_prover]
    fn push_instance(&mut self, class: usize) -> (r: usize)
        requires
            old(self).wf(),
            class < old(self).nc(),
        ensures
            final(self).wf(),
            Interpreter::extends(*final(self), *old(self)),
            r as int == old(self).ni(),
            final(self).ni() == old(self).ni() + 1,
            final(self).ne() == old(self).ne(),
            final(self).nf() == old(self).nf(),
            final(self).nc() == old(self).nc(),
            final(self).current == old(self).current,
            final(self).output == old(self).output,
            final(self).envs == old(self).envs,
            final(self).funs == old(self).funs,
            final(self).classes == old(self).classes,
            final(self).model() == m_push_instance(old(self).model(), class),
    {
        let r = self.instances.len();
        self.instances.push(LoxInstance { class, fields: Vec::new() });
        proof {
            assert(self.model() =~~= m_push_instance(old(self).model(), class));
            assert forall|j: int| 0 <= j < self.ne() implies self.env_entry_wf(j) by {
                assert(old(self).env_entry_wf(j));
                assert forall|k: int|
                    0 <= k < self.envs@[j].values@.len() implies value_wf(
                    #[trigger] self.envs@[j].values@[k].1.deep_view(),
                    self.ne(),
                    self.nf(),
                    self.nc(),
                    self.ni(),
                ) by {
                    assert(value_wf(
                        old(self).envs@[j].values@[k].1.deep_view(),
                        old(self).ne(),
                        old(self).nf(),
                        old(self).nc(),
                        old(self).ni(),
                    ));
                }
            }
            assert forall|j: int| 0 <= j < self.nc() implies self.class_entry_wf(j) by {
                assert(old(self).class_entry_wf(j));
            }
            assert forall|j: int, k: int|
                0 <= j < self.ni() && 0 <= k < self.instances@[j].fields@.len() implies value_wf(
                #[trigger] self.instances@[j].fields@[k].1.deep_view(),
                self.ne(),
                self.nf(),
                self.nc(),
                self.ni(),
            ) by {
                if j < old(self).ni() {
                    assert(self.instances@[j] == old(self).instances@[j]);
                    assert(value_wf(
                        old(self).instances@[j].fields@[k].1.deep_view(),
                        old(self).ne(),
                        old(self).nf(),
                        old(self).nc(),
                        old(self).ni(),
                    ));
                } else {
                    assert(self.instances@[j].fields@.len() == 0);
                }
            }
        }
        r
    }

    /// Creates or updates a field on an instance.
    #[verifier::rlimit(100)]
    #[verifier::spinoff_prover]
    fn set_field(&mut self, inst: usize, name: &String, v: Value)
        requires
            old(self).wf(),
            inst < old(self).ni(),
            old(self).value_ok(v.deep_view()),
        ensures
            final(self).wf(),
            Interpreter::extends(*final(self), *old(self)),
            final(self).ne() == old(self).ne(),
            final(self).nf() == old(self).nf(),
            final(self).nc() == old(self).nc(),
            final(self).ni() == old(self).ni(),
            final(self).current == old(self).current,
            final(self).output == old(self).output,
            final(self).model() == m_set_field(old(self).model(), inst, name@, v.deep_view()),
    {
        let ghost vview = v.deep_view();
        let mut entry = LoxInstance { class: self.instances[inst].class, fields: Vec::new() };
        self.instances.set_and_swap(inst, &mut entry);
        entry.fields.push((name.clone(), v));
        self.instances.set_and_swap(inst, &mut entry);
        proof {
            assert(self.instances@[inst as int].fields.deep_view() =~= old(self).instances@[
                inst as int
            ].fields.deep_view().push((name@, vview)));
            assert(self.model() =~~= m_set_field(old(self).model(), inst, name@, vview));
            assert forall|j: int| 0 <= j < self.ne() implies self.env_entry_wf(j) by {
                assert(old(self).env_entry_wf(j));
                assert(self.envs@[j] == old(self).envs@[j]);
                assert forall|k: int|
                    0 <= k < self.envs@[j].values@.len() implies value_wf(
                    #[trigger] self.envs@[j].values@[k].1.deep_view(),
                    self.ne(),
                    self.nf(),
                    self.nc(),
                    self.ni(),
                ) by {
                    assert(value_wf(
                        old(self).envs@[j].values@[k].1.deep_view(),
                        old(self).ne(),
                        old(self).nf(),
                        old(self).nc(),
                        old(self).ni(),
                    ));
                }
            }
            assert forall|j: int| 0 <= j < self.nc() implies self.class_entry_wf(j) by {
                assert(old(self).class_entry_wf(j));
            }
            assert forall|j: int, k: int|
                0 <= j < self.ni() && 0 <= k < self.instances@[j].fields@.len() implies value_wf(
                #[trigger] self.instances@[j].fields@[k].1.deep_view(),
                self.ne(),
                self.nf(),
                self.nc(),
                self.ni(),
            ) by {
                if j == inst {
                    let nfs = self.instances@[j].fields@;
                    let ofs = old(self).instances@[j].fields@;
                    if k < ofs.len() {
                        assert(nfs[k] == ofs[k]);
                        assert(value_wf(
                            old(self).instances@[j].fields@[k].1.deep_view(),
                            old(self).ne(),
                            old(self).nf(),
                            old(self).nc(),
                            old(self).ni(),
                        ));
                    } else {
                        assert(nfs[k].1.deep_view() == vview);
                    }
                } else {
                    assert(self.instances@[j] == old(self).instances@[j]);
                    assert(value_wf(
                        old(self).instances@[j].fields@[k].1.deep_view(),
                        old(self).ne(),
                        old(self).nf(),
                        old(self).nc(),
                        old(self).ni(),
                    ));
                }
            }
        }
    }

    /// Binds a method to an instance: a fresh environment holding `this`
    /// encloses the method's captured environment, and the bound method
    /// carries it.
    fn bind_method(&mut self, m: usize, inst: usize) -> (r: Value)
        requires
            old(self).wf(),
            m < old(self).nf(),
            inst < old(self).ni(),
        ensures
            final(self).wf(),
            Interpreter::extends(*final(self), *old(self)),
            final(self).current == old(self).current,
            final(self).output == old(self).output,
            final(self).value_ok(r.deep_view()),
            (final(self).model(), r.deep_view()) == m_bind(old(self).model(), m, inst),
    {
        let parent = self.funs[m].env;
        let benv = self.new_env(Some(parent));
        let this_key = String::from_str("this");
        self.env_define(benv, &this_key, Value::Instance(inst));
        Value::BoundMethod { function: m, bound_env: benv }
    }
}


/// Changing the cursor or the printed output never disturbs the invariant:
/// it only speaks of the arenas.
pub proof fn lemma_wf_same_arenas(a: Interpreter, b: Interpreter)
    requires
        a.wf(),
        b.envs == a.envs,
        b.funs == a.funs,
        b.classes == a.classes,
        b.instances == a.instances,
        b.current < b.ne(),
    ensures
        b.wf(),
{
    assert forall|j: int| 0 <= j < b.ne() implies b.env_entry_wf(j) by {
        assert(a.env_entry_wf(j));
        assert forall|k: int|
            0 <= k < b.envs@[j].values@.len() implies value_wf(
            #[trigger] b.envs@[j].values@[k].1.deep_view(),
            b.ne(),
            b.nf(),
            b.nc(),
            b.ni(),
        ) by {
            assert(value_wf(
                a.envs@[j].values@[k].1.deep_view(),
                a.ne(),
                a.nf(),
                a.nc(),
                a.ni(),
            ));
        }
    }
    assert forall|j: int| 0 <= j < b.nc() implies b.class_entry_wf(j) by {
        assert(a.class_entry_wf(j));
    }
    assert forall|j: int, k: int|
        0 <= j < b.ni() && 0 <= k < b.instances@[j].fields@.len() implies value_wf(
        #[trigger] b.instances@[j].fields@[k].1.deep_view(),
        b.ne(),
        b.nf(),
        b.nc(),
        b.ni(),
    ) by {
        assert(value_wf(
            a.instances@[j].fields@[k].1.deep_view(),
            a.ne(),
            a.nf(),
            a.nc(),
            a.ni(),
        ));
    }
}

/// Closures see the binding, not the value at capture time.  A function
/// value carries the handle of its captured environment, never a copy of
/// its contents; this lemma states the other half: a write through an
/// environment's binding list is what every later read of that name through
/// the same list returns, and no other name is disturbed.  Together they say
/// that mutating an outer variable after capture is observed by later calls.
pub proof fn lemma_capture_sees_binding(
    vs: Seq<(Seq<char>, ValueSpec)>,
    name: Seq<char>,
    v: ValueSpec,
    other: Seq<char>,
)
    ensures
        sp_vals_find(vs.push((name, v)), name) == Some(v),
        other != name ==> sp_vals_find(vs.push((name, v)), other) == sp_vals_find(vs, other),
{
    assert(vs.push((name, v)).last() == (name, v));
    assert(vs.push((name, v)).drop_last() =~= vs);
}

/// The parameters bound positionally into a call environment: the first `n`
/// of them, in order.
pub open spec fn m_bind_params(
    st: InterpSpec,
    env: usize,
    params: Seq<Seq<char>>,
    args: Seq<ValueSpec>,
    n: int,
) -> InterpSpec
    decreases n,
{
    if n <= 0 {
        st
    } else {
        m_define(m_bind_params(st, env, params, args, n - 1), env, params[n - 1], args[n - 1])
    }
}

/// The functions a class body declares, entered into the arena in order
/// with the given closure, paired with their names; `init` is flagged as
/// the initializer.  Anything that is not a function declaration is passed
/// over (the parser puts nothing else in a class body).
pub open spec fn m_collect_methods(
    st: InterpSpec,
    methods: Seq<StmtSpec>,
    closure: usize,
    n: int,
) -> (InterpSpec, Seq<(Seq<char>, usize)>)
    decreases n,
{
    if n <= 0 {
        (st, seq![])
    } else {
        let (st1, acc) = m_collect_methods(st, methods, closure, n - 1);
        match methods[n - 1] {
            StmtSpec::Function { name, params, body } => {
                let h = st1.funs.len() as usize;
                let f = FunSpec {
                    name,
                    params,
                    body,
                    env: closure,
                    is_initializer: name == "init"@,
                };
                (m_push_fun(st1, f), acc.push((name, h)))
            },
            _ => (st1, acc),
        }
    }
}

/// Evaluation of one expression from a given state, under a step budget:
/// the state it leaves behind and the value it produces or the error that
/// stops it.  This is the meaning of the evaluator: each executable arm is
/// proved to return exactly what its arm here says.
#[verifier::opaque]
pub open spec fn sp_eval(st: InterpSpec, e: ExprSpec, fuel: nat) -> (
    InterpSpec,
    Result<ValueSpec, InterpreterErrorSpec>,
)
    decreases fuel,
{
    if fuel == 0 {
        (st, Err(InterpreterErrorSpec::OutOfFuel))
    } else {
        let f1 = (fuel - 1) as nat;
        match e {
            ExprSpec::Literal(l) => (
                st,
                Ok(
                    match l {
                        LiteralSpec::Number(bits) => ValueSpec::Number(bits),
                        LiteralSpec::String(s) => ValueSpec::String(s),
                        LiteralSpec::Boolean(b) => ValueSpec::Boolean(b),
                        LiteralSpec::Nil => ValueSpec::Nil,
                    },
                ),
            ),
            ExprSpec::Group(inner) => sp_eval(st, *inner, f1),
            ExprSpec::Unary { operator, expression } => {
                let (st1, r1) = sp_eval(st, *expression, f1);
                match r1 {
                    Ok(v) => {
                        if operator == TokenKind::Minus {
                            match v {
                                ValueSpec::Number(b) => (st1, Ok(ValueSpec::Number(num_neg(b)))),
                                _ => (
                                    st1,
                                    Err(
                                        InterpreterErrorSpec::Message(
                                            "Operand must be a number."@,
                                            ExitCode::RunTimeError,
                                        ),
                                    ),
                                ),
                            }
                        } else if operator == TokenKind::Bang {
                            (st1, Ok(ValueSpec::Boolean(!sp_truthy(v))))
                        } else {
                            (st1, Ok(v))
                        }
                    },
                    Err(er) => (st1, Err(er)),
                }
            },
            ExprSpec::Binary { left, operator, right } => {
                let (st1, r1) = sp_eval(st, *left, f1);
                match r1 {
                    Ok(lv) => {
                        let (st2, r2) = sp_eval(st1, *right, f1);
                        match r2 {
                            Ok(rv) => (st2, sp_binary(operator, lv, rv)),
                            Err(er) => (st2, Err(er)),
                        }
                    },
                    Err(er) => (st1, Err(er)),
                }
            },
            ExprSpec::Logical { left, operator, right } => {
                let (st1, r1) = sp_eval(st, *left, f1);
                match r1 {
                    Ok(lv) => {
                        if operator == TokenKind::Or && sp_truthy(lv) {
                            (st1, Ok(lv))
                        } else if operator == TokenKind::And && !sp_truthy(lv) {
                            (st1, Ok(lv))
                        } else {
                            sp_eval(st1, *right, f1)
                        }
                    },
                    Err(er) => (st1, Err(er)),
                }
            },
            ExprSpec::Variable { name, resolved } => match resolved {
                Some(d) => match m_get_at(st, d as int, name) {
                    Some(v) => (st, Ok(v)),
                    None => (st, Err(InterpreterErrorSpec::UndefinedVariable(name))),
                },
                None => match m_get_walk(st, st.current as int, name) {
                    Some(v) => (st, Ok(v)),
                    None => (st, Err(InterpreterErrorSpec::UndefinedVariable(name))),
                },
            },
            ExprSpec::Assign { name, value, resolved } => {
                let (st1, r1) = sp_eval(st, *value, f1);
                match r1 {
                    Ok(v) => match resolved {
                        Some(d) => {
                            let (st2, _moved) = m_assign_at(st1, d as int, name, v);
                            (st2, Ok(v))
                        },
                        None => {
                            let (st2, hit) = m_assign_walk(st1, st1.current as int, name, v);
                            if hit {
                                (st2, Ok(v))
                            } else {
                                (st2, Err(InterpreterErrorSpec::UndefinedVariable(name)))
                            }
                        },
                    },
                    Err(er) => (st1, Err(er)),
                }
            },
            ExprSpec::This { resolved } => match resolved {
                Some(d) => match m_get_at(st, d as int, "this"@) {
                    Some(v) => (st, Ok(v)),
                    None => (st, Err(InterpreterErrorSpec::UndefinedVariable("this"@))),
                },
                None => (
                    st,
                    Err(
                        InterpreterErrorSpec::Message(
                            "Cannot use 'this' here."@,
                            ExitCode::RunTimeError,
                        ),
                    ),
                ),
            },
            ExprSpec::Super { method, resolved } => match resolved {
                None => (
                    st,
                    Err(
                        InterpreterErrorSpec::Message(
                            "Cannot use 'super' outside of a class."@,
                            ExitCode::RunTimeError,
                        ),
                    ),
                ),
                Some(d) => match m_get_at(st, d as int, "super"@) {
                    Some(ValueSpec::Class(sc)) => match m_get_walk(
                        st,
                        st.current as int,
                        "this"@,
                    ) {
                        Some(ValueSpec::Instance(inst)) => match m_find_method(
                            st,
                            sc as int,
                            method,
                        ) {
                            Some(m) => {
                                let (st1, bm) = m_bind(st, m, inst);
                                (st1, Ok(bm))
                            },
                            None => (
                                st,
                                Err(
                                    InterpreterErrorSpec::Message(
                                        "Undefined property '"@ + method + "'."@,
                                        ExitCode::RunTimeError,
                                    ),
                                ),
                            ),
                        },
                        _ => (
                            st,
                            Err(
                                InterpreterErrorSpec::Message(
                                    "Cannot use 'super' in a static context."@,
                                    ExitCode::RunTimeError,
                                ),
                            ),
                        ),
                    },
                    Some(_) => (
                        st,
                        Err(
                            InterpreterErrorSpec::Message(
                                "'super' must be used within a class that has a superclass."@,
                                ExitCode::RunTimeError,
                            ),
                        ),
                    ),
                    None => (
                        st,
                        Err(
                            InterpreterErrorSpec::Message(
                                "Cannot use 'super' outside of a class."@,
                                ExitCode::RunTimeError,
                            ),
                        ),
                    ),
                },
            },
            ExprSpec::Get { object, name } => {
                let (st1, r1) = sp_eval(st, *object, f1);
                match r1 {
                    Ok(ov) => match ov {
                        ValueSpec::Instance(i) => match sp_vals_find(
                            st1.instances[i as int].fields,
                            name,
                        ) {
                            Some(v) => (st1, Ok(v)),
                            None => match m_find_method(
                                st1,
                                st1.instances[i as int].class as int,
                                name,
                            ) {
                                Some(m) => {
                                    let (st2, bm) = m_bind(st1, m, i);
                                    (st2, Ok(bm))
                                },
                                None => (
                                    st1,
                                    Err(
                                        InterpreterErrorSpec::Message(
                                            "Undefined property '"@ + name + "'."@,
                                            ExitCode::RunTimeError,
                                        ),
                                    ),
                                ),
                            },
                        },
                        _ => (
                            st1,
                            Err(
                                InterpreterErrorSpec::Message(
                                    "Only instances have properties."@,
                                    ExitCode::RunTimeError,
                                ),
                            ),
                        ),
                    },
                    Err(er) => (st1, Err(er)),
                }
            },
            ExprSpec::SetProp { object, property, value } => {
                let (st1, r1) = sp_eval(st, *object, f1);
                match r1 {
                    Ok(ov) => match ov {
                        ValueSpec::Instance(i) => {
                            let (st2, r2) = sp_eval(st1, *value, f1);
                            match r2 {
                                Ok(v) => (m_set_field(st2, i, property, v), Ok(v)),
                                Err(er) => (st2, Err(er)),
                            }
                        },
                        _ => (
                            st1,
                            Err(
                                InterpreterErrorSpec::Message(
                                    "Only instances have fields."@,
                                    ExitCode::RunTimeError,
                                ),
                            ),
                        ),
                    },
                    Err(er) => (st1, Err(er)),
                }
            },
            ExprSpec::Call { callee, args } => {
                let (st1, r1) = sp_eval(st, *callee, f1);
                match r1 {
                    Ok(cv) => match cv {
                        ValueSpec::Function(h) => {
                            let arity = st1.funs[h as int].params.len();
                            if arity != args.len() {
                                (
                                    st1,
                                    Err(
                                        InterpreterErrorSpec::Message(
                                            m_arity_msg(arity, args.len()),
                                            ExitCode::RunTimeError,
                                        ),
                                    ),
                                )
                            } else {
                                let (st2, r2) = sp_eval_args(st1, args, 0, seq![], f1);
                                match r2 {
                                    Ok(argv) => sp_call_fn(
                                        st2,
                                        h,
                                        st2.funs[h as int].env,
                                        argv,
                                        f1,
                                    ),
                                    Err(er) => (st2, Err(er)),
                                }
                            }
                        },
                        ValueSpec::BoundMethod { function, bound_env } => {
                            let arity = st1.funs[function as int].params.len();
                            if arity != args.len() {
                                (
                                    st1,
                                    Err(
                                        InterpreterErrorSpec::Message(
                                            m_arity_msg(arity, args.len()),
                                            ExitCode::RunTimeError,
                                        ),
                                    ),
                                )
                            } else {
                                let (st2, r2) = sp_eval_args(st1, args, 0, seq![], f1);
                                match r2 {
                                    Ok(argv) => sp_call_fn(st2, function, bound_env, argv, f1),
                                    Err(er) => (st2, Err(er)),
                                }
                            }
                        },
                        ValueSpec::NativeClock => {
                            if args.len() != 0 {
                                (
                                    st1,
                                    Err(
                                        InterpreterErrorSpec::Message(
                                            m_arity_msg(0, args.len()),
                                            ExitCode::RunTimeError,
                                        ),
                                    ),
                                )
                            } else {
                                (st1, Ok(ValueSpec::Number(st1.clock_bits)))
                            }
                        },
                        ValueSpec::Class(c) => {
                            let init = m_find_method(st1, c as int, "init"@);
                            let arity: nat = match init {
                                Some(m) => st1.funs[m as int].params.len(),
                                None => 0,
                            };
                            if arity != args.len() {
                                (
                                    st1,
                                    Err(
                                        InterpreterErrorSpec::Message(
                                            m_arity_msg(arity, args.len()),
                                            ExitCode::RunTimeError,
                                        ),
                                    ),
                                )
                            } else {
                                let (st2, r2) = sp_eval_args(st1, args, 0, seq![], f1);
                                match r2 {
                                    Ok(argv) => {
                                        let inst = st2.instances.len() as usize;
                                        let st3 = m_push_instance(st2, c);
                                        match init {
                                            Some(m) => {
                                                let benv = st3.envs.len() as usize;
                                                let st4 = m_new_env(
                                                    st3,
                                                    Some(st3.funs[m as int].env),
                                                );
                                                let st5 = m_define(
                                                    st4,
                                                    benv,
                                                    "this"@,
                                                    ValueSpec::Instance(inst),
                                                );
                                                let (st6, r3) = sp_call_fn(
                                                    st5,
                                                    m,
                                                    benv,
                                                    argv,
                                                    f1,
                                                );
                                                match r3 {
                                                    Ok(_) => (
                                                        st6,
                                                        Ok(ValueSpec::Instance(inst)),
                                                    ),
                                                    Err(er) => (st6, Err(er)),
                                                }
                                            },
                                            None => (st3, Ok(ValueSpec::Instance(inst))),
                                        }
                                    },
                                    Err(er) => (st2, Err(er)),
                                }
                            }
                        },
                        _ => (
                            st1,
                            Err(
                                InterpreterErrorSpec::Message(
                                    "Can only call functions and classes."@,
                                    ExitCode::RunTimeError,
                                ),
                            ),
                        ),
                    },
                    Err(er) => (st1, Err(er)),
                }
            },
        }
    }
}

/// Evaluation of the arguments of a call from index `i` on, left to right,
/// appended to `acc`.
#[verifier::opaque]
pub open spec fn sp_eval_args(
    st: InterpSpec,
    args: Seq<ExprSpec>,
    i: int,
    acc: Seq<ValueSpec>,
    fuel: nat,
) -> (InterpSpec, Result<Seq<ValueSpec>, InterpreterErrorSpec>)
    decreases fuel,
{
    if fuel == 0 {
        (st, Err(InterpreterErrorSpec::OutOfFuel))
    } else {
        let f1 = (fuel - 1) as nat;
        if i < 0 || i >= args.len() {
            (st, Ok(acc))
        } else {
            let (st1, r1) = sp_eval(st, args[i], f1);
            match r1 {
                Ok(v) => sp_eval_args(st1, args, i + 1, acc.push(v), f1),
                Err(er) => (st1, Err(er)),
            }
        }
    }
}

/// A function call: a fresh environment enclosing `parent` binds the
/// parameters positionally, the body runs in it with the cursor moved there
/// and back, a travelling `return` becomes the call's value, a body that
/// falls off the end yields nil, and an initializer hands back its `this`.
#[verifier::opaque]
pub open spec fn sp_call_fn(
    st: InterpSpec,
    h: usize,
    parent: usize,
    args: Seq<ValueSpec>,
    fuel: nat,
) -> (InterpSpec, Result<ValueSpec, InterpreterErrorSpec>)
    decreases fuel,
{
    if fuel == 0 {
        (st, Err(InterpreterErrorSpec::OutOfFuel))
    } else {
        let f1 = (fuel - 1) as nat;
        let params = st.funs[h as int].params;
        let body = st.funs[h as int].body;
        let is_init = st.funs[h as int].is_initializer;
        let call_env = st.envs.len() as usize;
        let st1 = m_new_env(st, Some(parent));
        let n: int = if params.len() <= args.len() {
            params.len() as int
        } else {
            args.len() as int
        };
        let st2 = m_bind_params(st1, call_env, params, args, n);
        let prev = st2.current;
        let st3 = InterpSpec { current: call_env, ..st2 };
        let (st4, br) = sp_exec_block(st3, body, 0, f1);
        let st5 = InterpSpec { current: prev, ..st4 };
        match br {
            Ok(_) => {
                if is_init {
                    match m_get_walk(st5, call_env as int, "this"@) {
                        Some(v) => (st5, Ok(v)),
                        None => (st5, Ok(ValueSpec::Nil)),
                    }
                } else {
                    (st5, Ok(ValueSpec::Nil))
                }
            },
            Err(InterpreterErrorSpec::ReturnError(v)) => {
                if is_init {
                    match m_get_walk(st5, call_env as int, "this"@) {
                        Some(tv) => (st5, Ok(tv)),
                        None => (st5, Ok(ValueSpec::Nil)),
                    }
                } else {
                    (st5, Ok(v))
                }
            },
            Err(er) => (st5, Err(er)),
        }
    }
}

/// The statements of a block, run in order from index `i`.
#[verifier::opaque]
pub open spec fn sp_exec_block(st: InterpSpec, body: Seq<StmtSpec>, i: int, fuel: nat) -> (
    InterpSpec,
    Result<(), InterpreterErrorSpec>,
)
    decreases fuel,
{
    if fuel == 0 {
        (st, Err(InterpreterErrorSpec::OutOfFuel))
    } else {
        let f1 = (fuel - 1) as nat;
        if i < 0 || i >= body.len() {
            (st, Ok(()))
        } else {
            let (st1, r1) = sp_exec_stmt(st, body[i], f1);
            match r1 {
                Ok(_) => sp_exec_block(st1, body, i + 1, f1),
                Err(er) => (st1, Err(er)),
            }
        }
    }
}

/// A `while` loop: condition, body, and around again, under the budget.
#[verifier::opaque]
pub open spec fn sp_while_loop(st: InterpSpec, cond: ExprSpec, body: StmtSpec, fuel: nat) -> (
    InterpSpec,
    Result<(), InterpreterErrorSpec>,
)
    decreases fuel,
{
    if fuel == 0 {
        (st, Err(InterpreterErrorSpec::OutOfFuel))
    } else {
        let f1 = (fuel - 1) as nat;
        let (st1, cr) = sp_eval(st, cond, f1);
        match cr {
            Ok(cv) => {
                if !sp_truthy(cv) {
                    (st1, Ok(()))
                } else {
                    let (st2, br) = sp_exec_stmt(st1, body, f1);
                    match br {
                        Ok(_) => sp_while_loop(st2, cond, body, f1),
                        Err(er) => (st2, Err(er)),
                    }
                }
            },
            Err(er) => (st1, Err(er)),
        }
    }
}

/// The repeating part of a `for` loop: condition (true when absent), body,
/// increment, and around again, under the budget.
#[verifier::opaque]
pub open spec fn sp_for_loop(
    st: InterpSpec,
    cond: Option<ExprSpec>,
    incr: Option<ExprSpec>,
    body: StmtSpec,
    fuel: nat,
) -> (InterpSpec, Result<(), InterpreterErrorSpec>)
    decreases fuel,
{
    if fuel == 0 {
        (st, Err(InterpreterErrorSpec::OutOfFuel))
    } else {
        let f1 = (fuel - 1) as nat;
        let cond_step: (InterpSpec, Result<bool, InterpreterErrorSpec>) = match cond {
            Some(c) => {
                let (st1, cr) = sp_eval(st, c, f1);
                match cr {
                    Ok(cv) => (st1, Ok(sp_truthy(cv))),
                    Err(er) => (st1, Err(er)),
                }
            },
            None => (st, Ok(true)),
        };
        let (st1, go) = cond_step;
        match go {
            Ok(g) => {
                if !g {
                    (st1, Ok(()))
                } else {
                    let (st2, br) = sp_exec_stmt(st1, body, f1);
                    match br {
                        Ok(_) => {
                            let incr_step: (InterpSpec, Result<(), InterpreterErrorSpec>) =
                                match incr {
                                Some(ic) => {
                                    let (st3, ir) = sp_eval(st2, ic, f1);
                                    match ir {
                                        Ok(_) => (st3, Ok(())),
                                        Err(er) => (st3, Err(er)),
                                    }
                                },
                                None => (st2, Ok(())),
                            };
                            let (st3, ir) = incr_step;
                            match ir {
                                Ok(_) => sp_for_loop(st3, cond, incr, body, f1),
                                Err(er) => (st3, Err(er)),
                            }
                        },
                        Err(er) => (st2, Err(er)),
                    }
                }
            },
            Err(er) => (st1, Err(er)),
        }
    }
}

/// A class declaration: the name enters the current environment, the
/// superclass name is looked up and must name a class, the methods close
/// over an environment holding `super` when there is a superclass, and the
/// finished class is assigned to its name.
#[verifier::opaque]
pub open spec fn sp_class_decl(
    st: InterpSpec,
    name: Seq<char>,
    superclass: Option<Seq<char>>,
    methods: Seq<StmtSpec>,
    fuel: nat,
) -> (InterpSpec, Result<(), InterpreterErrorSpec>)
    decreases fuel,
{
    if fuel == 0 {
        (st, Err(InterpreterErrorSpec::OutOfFuel))
    } else {
        let st1 = m_define(st, st.current, name, ValueSpec::Nil);
        let sup_step: Result<Option<usize>, InterpreterErrorSpec> = match superclass {
            Some(sn) => match m_get_walk(st1, st1.current as int, sn) {
                Some(ValueSpec::Class(c)) => Ok(Some(c)),
                _ => Err(
                    InterpreterErrorSpec::Message(
                        "Undefined superclass '"@ + sn + "'."@,
                        ExitCode::RunTimeError,
                    ),
                ),
            },
            None => Ok(None),
        };
        match sup_step {
            Ok(sup) => {
                let with_closure: (InterpSpec, usize) = match sup {
                    Some(c) => {
                        let ce = st1.envs.len() as usize;
                        let st2 = m_new_env(st1, Some(st1.current));
                        let st3 = m_define(st2, ce, "super"@, ValueSpec::Class(c));
                        (st3, ce)
                    },
                    None => (st1, st1.current),
                };
                let (st3, closure) = with_closure;
                let (st4, handles) = m_collect_methods(st3, methods, closure, methods.len() as int);
                let ch = st4.classes.len() as usize;
                let st5 = m_push_class(st4, ClassSpec { name, superclass: sup, methods: handles });
                let (st6, _hit) = m_assign_walk(st5, st5.current as int, name, ValueSpec::Class(ch));
                (st6, Ok(()))
            },
            Err(er) => (st1, Err(er)),
        }
    }
}

/// One statement, run from a given state under the budget: what it changes,
/// what it prints, and the error or travelling `return` that stops it.  The
/// cursor always comes back to where it started.
#[verifier::opaque]
pub open spec fn sp_exec_stmt(st: InterpSpec, s: StmtSpec, fuel: nat) -> (
    InterpSpec,
    Result<(), InterpreterErrorSpec>,
)
    decreases fuel,
{
    if fuel == 0 {
        (st, Err(InterpreterErrorSpec::OutOfFuel))
    } else {
        let f1 = (fuel - 1) as nat;
        match s {
            StmtSpec::Print(e) => {
                let (st1, r1) = sp_eval(st, e, f1);
                match r1 {
                    Ok(v) => (
                        InterpSpec { output: st1.output.push(m_display(st1, v)), ..st1 },
                        Ok(()),
                    ),
                    Err(er) => (st1, Err(er)),
                }
            },
            StmtSpec::Expr(e) => {
                let (st1, r1) = sp_eval(st, e, f1);
                match r1 {
                    Ok(_) => (st1, Ok(())),
                    Err(er) => (st1, Err(er)),
                }
            },
            StmtSpec::Var { name, initializer } => {
                let init_step: (InterpSpec, Result<ValueSpec, InterpreterErrorSpec>) =
                    match initializer {
                    Some(e) => sp_eval(st, e, f1),
                    None => (st, Ok(ValueSpec::Nil)),
                };
                let (st1, r1) = init_step;
                match r1 {
                    Ok(v) => (m_define(st1, st1.current, name, v), Ok(())),
                    Err(er) => (st1, Err(er)),
                }
            },
            StmtSpec::Block(list) => {
                let prev = st.current;
                let benv = st.envs.len() as usize;
                let st1 = m_new_env(st, Some(prev));
                let st2 = InterpSpec { current: benv, ..st1 };
                let (st3, r1) = sp_exec_block(st2, list, 0, f1);
                (InterpSpec { current: prev, ..st3 }, r1)
            },
            StmtSpec::If { condition, then_branch, else_branch } => {
                let (st1, cr) = sp_eval(st, condition, f1);
                match cr {
                    Ok(cv) => {
                        if sp_truthy(cv) {
                            sp_exec_stmt(st1, *then_branch, f1)
                        } else {
                            match else_branch {
                                Some(eb) => sp_exec_stmt(st1, *eb, f1),
                                None => (st1, Ok(())),
                            }
                        }
                    },
                    Err(er) => (st1, Err(er)),
                }
            },
            StmtSpec::While { condition, body } => sp_while_loop(st, *condition, *body, f1),
            StmtSpec::For { initialize, condition, increment, body } => {
                let prev = st.current;
                let lenv = st.envs.len() as usize;
                let st1 = m_new_env(st, Some(prev));
                let st2 = InterpSpec { current: lenv, ..st1 };
                let init_step: (InterpSpec, Result<(), InterpreterErrorSpec>) = match initialize {
                    Some(ist) => sp_exec_stmt(st2, *ist, f1),
                    None => (st2, Ok(())),
                };
                let (st3, ir) = init_step;
                match ir {
                    Ok(_) => {
                        let (st4, r1) = sp_for_loop(st3, condition, increment, *body, f1);
                        (InterpSpec { current: prev, ..st4 }, r1)
                    },
                    Err(er) => (InterpSpec { current: prev, ..st3 }, Err(er)),
                }
            },
            StmtSpec::Function { name, params, body } => {
                let h = st.funs.len() as usize;
                let f = FunSpec { name, params, body, env: st.current, is_initializer: false };
                let st1 = m_push_fun(st, f);
                (m_define(st1, st1.current, name, ValueSpec::Function(h)), Ok(()))
            },
            StmtSpec::Return { value } => {
                let value_step: (InterpSpec, Result<ValueSpec, InterpreterErrorSpec>) =
                    match value {
                    Some(e) => sp_eval(st, e, f1),
                    None => (st, Ok(ValueSpec::Nil)),
                };
                let (st1, r1) = value_step;
                match r1 {
                    Ok(v) => (st1, Err(InterpreterErrorSpec::ReturnError(v))),
                    Err(er) => (st1, Err(er)),
                }
            },
            StmtSpec::Class { name, superclass, methods } => sp_class_decl(
                st,
                name,
                superclass,
                methods,
                f1,
            ),
        }
    }
}

/// The starting state: one global environment holding the native `clock`,
/// nothing printed, and the clock reading taken at construction.
pub open spec fn m_fresh(clock_bits: u64) -> InterpSpec {
    InterpSpec {
        envs: seq![
            EnvSpec { enclosing: None, values: seq![("clock"@, ValueSpec::NativeClock)] },
        ],
        funs: seq![],
        classes: seq![],
        instances: seq![],
        current: 0,
        output: seq![],
        clock_bits,
    }
}

/// The resolved statements of a program, run in order from index `i`; each
/// statement gets the full budget, as the driver hands it out.
pub open spec fn sp_run_stmts(st: InterpSpec, stmts: Seq<StmtSpec>, i: int, fuel: nat) -> (
    InterpSpec,
    Result<(), InterpreterErrorSpec>,
)
    decreases stmts.len() - i,
{
    if i < 0 || i >= stmts.len() {
        (st, Ok(()))
    } else {
        let (st1, r1) = sp_exec_stmt(st, stmts[i], fuel);
        match r1 {
            Ok(_) => sp_run_stmts(st1, stmts, i + 1, fuel),
            Err(er) => (st1, Err(er)),
        }
    }
}

/// A whole program run: resolution from a fresh resolver, then execution of
/// the resolved statements in order against a fresh interpreter seeded with
/// the given clock reading; the outcome and everything printed.  A
/// resolution error ends the run before anything executes.
pub open spec fn sp_run(stmts: Seq<StmtSpec>, clock_bits: u64, fuel: nat) -> (
    Result<(), InterpreterErrorSpec>,
    Seq<Seq<char>>,
) {
    match crate::resolver::sp_res_stmts(
        stmts,
        0,
        seq![],
        seq![],
        crate::resolver::FunctionType::NotInFunction,
        crate::resolver::ClassType::NotInClass,
    ) {
        Ok((resolved, _)) => {
            let (st, r) = sp_run_stmts(m_fresh(clock_bits), resolved, 0, fuel);
            (r, st.output)
        },
        Err(er) => (
            Err(
                InterpreterErrorSpec::Message(
                    "Resolution error: "@ + (match er {
                        crate::resolver::ResolverErrorSpec::Message(s) => s,
                    }),
                    ExitCode::CompilerError,
                ),
            ),
            seq![],
        ),
    }
}

impl Interpreter {
    /// Evaluates one expression under a step budget.  The state only ever
    /// grows, the result refers only to entries that exist, and on success
    /// the current environment is back where it started.
    #[verifier::rlimit(100)]
    #[verifier::spinoff_prover]
    pub fn evaluate(&mut self, e: &Expression, fuel: u64) -> (r: Result<Value, InterpreterError>)
        requires
            old(self).wf(),
        ensures
            final(self).wf(),
            Interpreter::extends(*final(self), *old(self)),
            final(self).current == old(self).current,
            r is Ok ==> final(self).value_ok(r->Ok_0.deep_view()),
            r is Err ==> err_ok_for(*final(self), r->Err_0.deep_view()),
            (final(self).model(), res_view(r)) == sp_eval(
                old(self).model(),
                e.deep_view(),
                fuel as nat,
            ),
        decreases fuel,
    {
        reveal(sp_eval);
        reveal(sp_eval_args);
        reveal(sp_call_fn);
        reveal(sp_exec_block);
        reveal(sp_exec_stmt);
        reveal(sp_while_loop);
        reveal(sp_for_loop);
        reveal(sp_class_decl);
        if fuel == 0 {
            return Err(InterpreterError::OutOfFuel);
        }
        let f1 = fuel - 1;
        match e {
            Expression::Literal(l) => match l {
                Literal::Number(bits) => Ok(Value::Number(*bits)),
                Literal::String(s) => Ok(Value::String(s.clone())),
                Literal::Boolean(b) => Ok(Value::Boolean(*b)),
                Literal::Nil => Ok(Value::Nil),
            },
            Expression::Group(inner) => self.evaluate(inner, f1),
            Expression::Unary { operator, expression } => {
                let v = match self.evaluate(expression, f1) {
                    Ok(v) => v,
                    Err(er) => {
                        return Err(er);
                    },
                };
                if *operator == TokenKind::Minus {
                    match v {
                        Value::Number(b) => Ok(Value::Number(neg_number(b))),
                        _ => Err(
                            InterpreterError::Message(
                                String::from_str("Operand must be a number."),
                                ExitCode::RunTimeError,
                            ),
                        ),
                    }
                } else if *operator == TokenKind::Bang {
                    Ok(Value::Boolean(!is_truthy(&v)))
                } else {
                    Ok(v)
                }
            },
            Expression::Binary { left, operator, right } => {
                let lv = match self.evaluate(left, f1) {
                    Ok(v) => v,
                    Err(er) => {
                        return Err(er);
                    },
                };
                let rv = match self.evaluate(right, f1) {
                    Ok(v) => v,
                    Err(er) => {
                        return Err(er);
                    },
                };
                let res = binary_op(*operator, lv, rv);
                proof {
                    if res is Ok {
                        assert(value_wf(res->Ok_0.deep_view(), 0, 0, 0, 0));
                    }
                }
                res
            },
            Expression::Logical { left, operator, right } => {
                let lv = match self.evaluate(left, f1) {
                    Ok(v) => v,
                    Err(er) => {
                        return Err(er);
                    },
                };
                if *operator == TokenKind::Or {
                    if is_truthy(&lv) {
                        return Ok(lv);
                    }
                } else if *operator == TokenKind::And && !is_truthy(&lv) {
                    return Ok(lv);
                }
                self.evaluate(right, f1)
            },
            Expression::Variable { name, resolved } => match resolved {
                Some(d) => match self.env_get_at(*d, name) {
                    Some(v) => Ok(v),
                    None => Err(InterpreterError::UndefinedVariable(name.clone())),
                },
                None => match self.env_get_from(self.current, name) {
                    Some(v) => Ok(v),
                    None => Err(InterpreterError::UndefinedVariable(name.clone())),
                },
            },
            Expression::Assign { name, value, resolved } => {
                let v = match self.evaluate(value, f1) {
                    Ok(v) => v,
                    Err(er) => {
                        return Err(er);
                    },
                };
                match resolved {
                    Some(d) => {
                        let _moved = self.env_assign_at(*d, name, duplicate(&v));
                        Ok(v)
                    },
                    None => {
                        if self.env_assign_walk(self.current, name, duplicate(&v)) {
                            Ok(v)
                        } else {
                            Err(InterpreterError::UndefinedVariable(name.clone()))
                        }
                    },
                }
            },
            Expression::This { resolved } => match resolved {
                Some(d) => {
                    let key = String::from_str("this");
                    match self.env_get_at(*d, &key) {
                        Some(v) => Ok(v),
                        None => Err(InterpreterError::UndefinedVariable(key)),
                    }
                },
                None => Err(
                    InterpreterError::Message(
                        String::from_str("Cannot use 'this' here."),
                        ExitCode::RunTimeError,
                    ),
                ),
            },
            Expression::Super { method, resolved } => {
                let d = match resolved {
                    Some(d) => *d,
                    None => {
                        return Err(
                            InterpreterError::Message(
                                String::from_str("Cannot use 'super' outside of a class."),
                                ExitCode::RunTimeError,
                            ),
                        );
                    },
                };
                let super_key = String::from_str("super");
                let sc = match self.env_get_at(d, &super_key) {
                    Some(Value::Class(c)) => c,
                    Some(_) => {
                        return Err(
                            InterpreterError::Message(
                                String::from_str(
                                    "'super' must be used within a class that has a superclass.",
                                ),
                                ExitCode::RunTimeError,
                            ),
                        );
                    },
                    None => {
                        return Err(
                            InterpreterError::Message(
                                String::from_str("Cannot use 'super' outside of a class."),
                                ExitCode::RunTimeError,
                            ),
                        );
                    },
                };
                let this_key = String::from_str("this");
                let inst = match self.env_get_from(self.current, &this_key) {
                    Some(Value::Instance(i)) => i,
                    _ => {
                        return Err(
                            InterpreterError::Message(
                                String::from_str("Cannot use 'super' in a static context."),
                                ExitCode::RunTimeError,
                            ),
                        );
                    },
                };
                match self.find_method(sc, method) {
                    Some(m) => Ok(self.bind_method(m, inst)),
                    None => {
                        let mut msg = String::from_str("Undefined property '");
                        msg.append(method.as_str());
                        msg.append("'.");
                        Err(InterpreterError::Message(msg, ExitCode::RunTimeError))
                    },
                }
            },
            Expression::Get { object, name } => {
                let ov = match self.evaluate(object, f1) {
                    Ok(v) => v,
                    Err(er) => {
                        return Err(er);
                    },
                };
                match ov {
                    Value::Instance(i) => {
                        let found = vals_find(&self.instances[i].fields, name);
                        match found {
                            Some(v) => {
                                proof {
                                    lemma_vals_find_in(
                                        self.instances@[i as int].fields.deep_view(),
                                        name@,
                                    );
                                }
                                Ok(v)
                            },
                            None => {
                                let cls = self.instances[i].class;
                                match self.find_method(cls, name) {
                                    Some(m) => Ok(self.bind_method(m, i)),
                                    None => {
                                        let mut msg = String::from_str("Undefined property '");
                                        msg.append(name.as_str());
                                        msg.append("'.");
                                        Err(
                                            InterpreterError::Message(
                                                msg,
                                                ExitCode::RunTimeError,
                                            ),
                                        )
                                    },
                                }
                            },
                        }
                    },
                    _ => Err(
                        InterpreterError::Message(
                            String::from_str("Only instances have properties."),
                            ExitCode::RunTimeError,
                        ),
                    ),
                }
            },
            Expression::SetProp { object, property, value } => {
                let ov = match self.evaluate(object, f1) {
                    Ok(v) => v,
                    Err(er) => {
                        return Err(er);
                    },
                };
                match ov {
                    Value::Instance(i) => {
                        let v = match self.evaluate(value, f1) {
                            Ok(v) => v,
                            Err(er) => {
                                return Err(er);
                            },
                        };
                        self.set_field(i, property, duplicate(&v));
                        Ok(v)
                    },
                    _ => Err(
                        InterpreterError::Message(
                            String::from_str("Only instances have fields."),
                            ExitCode::RunTimeError,
                        ),
                    ),
                }
            },
            Expression::Call { callee, args } => {
                proof {
                    lemma_exprs_view_from(args@, 0);
                }
                let cv = match self.evaluate(callee, f1) {
                    Ok(v) => v,
                    Err(er) => {
                        return Err(er);
                    },
                };
                match cv {
                    Value::Function(h) => {
                        let arity = self.funs[h].params.len();
                        if arity != args.len() {
                            return Err(self.arity_error(arity, args.len()));
                        }
                        let empty_acc: Vec<Value> = Vec::new();
                        proof {
                            assert(empty_acc.deep_view() =~= Seq::<ValueSpec>::empty());
                        }
                        let argv = match self.eval_args_from(args, 0, empty_acc, f1) {
                            Ok(v) => v,
                            Err(er) => {
                                return Err(er);
                            },
                        };
                        let parent = self.funs[h].env;
                        self.call_function(h, parent, argv, f1)
                    },
                    Value::BoundMethod { function, bound_env } => {
                        let arity = self.funs[function].params.len();
                        if arity != args.len() {
                            return Err(self.arity_error(arity, args.len()));
                        }
                        let empty_acc: Vec<Value> = Vec::new();
                        proof {
                            assert(empty_acc.deep_view() =~= Seq::<ValueSpec>::empty());
                        }
                        let argv = match self.eval_args_from(args, 0, empty_acc, f1) {
                            Ok(v) => v,
                            Err(er) => {
                                return Err(er);
                            },
                        };
                        self.call_function(function, bound_env, argv, f1)
                    },
                    Value::NativeClock => {
                        if args.len() != 0 {
                            return Err(self.arity_error(0, args.len()));
                        }
                        Ok(Value::Number(self.clock_bits))
                    },
                    Value::Class(c) => {
                        let init = self.find_method(c, &String::from_str("init"));
                        let arity = match init {
                            Some(m) => self.funs[m].params.len(),
                            None => 0,
                        };
                        if arity != args.len() {
                            return Err(self.arity_error(arity, args.len()));
                        }
                        let empty_acc: Vec<Value> = Vec::new();
                        proof {
                            assert(empty_acc.deep_view() =~= Seq::<ValueSpec>::empty());
                        }
                        let argv = match self.eval_args_from(args, 0, empty_acc, f1) {
                            Ok(v) => v,
                            Err(er) => {
                                return Err(er);
                            },
                        };
                        let inst = self.push_instance(c);
                        match init {
                            Some(m) => {
                                let parent = self.funs[m].env;
                                let benv = self.new_env(Some(parent));
                                let this_key = String::from_str("this");
                                self.env_define(benv, &this_key, Value::Instance(inst));
                                match self.call_function(m, benv, argv, f1) {
                                    Ok(_) => Ok(Value::Instance(inst)),
                                    Err(er) => Err(er),
                                }
                            },
                            None => Ok(Value::Instance(inst)),
                        }
                    },
                    _ => Err(
                        InterpreterError::Message(
                            String::from_str("Can only call functions and classes."),
                            ExitCode::RunTimeError,
                        ),
                    ),
                }
            },
        }
    }

    /// The runtime error for a call with the wrong number of arguments.
    fn arity_error(&self, expected: usize, got: usize) -> (r: InterpreterError)
        ensures
            r.deep_view() is Message,
            r.deep_view() == InterpreterErrorSpec::Message(
                m_arity_msg(expected as nat, got as nat),
                ExitCode::RunTimeError,
            ),
    {
        let mut msg = String::from_str("Expected ");
        push_dec(expected, &mut msg);
        msg.append(" arguments but got ");
        push_dec(got, &mut msg);
        msg.append(".");
        InterpreterError::Message(msg, ExitCode::RunTimeError)
    }

    /// Evaluates the arguments from index `i` on, appended to `acc`.
    #[verifier::rlimit(100)]
    #[verifier::spinoff_prover]
    fn eval_args_from(&mut self, args: &Vec<Expression>, i: usize, acc: Vec<Value>, fuel: u64) -> (r:
        Result<Vec<Value>, InterpreterError>)
        requires
            old(self).wf(),
            forall|k: int|
                0 <= k < acc@.len() ==> old(self).value_ok(#[trigger] acc@[k].deep_view()),
        ensures
            final(self).wf(),
            Interpreter::extends(*final(self), *old(self)),
            final(self).current == old(self).current,
            r is Ok ==> forall|k: int|
                0 <= k < r->Ok_0@.len() ==> final(self).value_ok(
                    #[trigger] r->Ok_0@[k].deep_view(),
                ),
            r is Err ==> err_ok_for(*final(self), r->Err_0.deep_view()),
            (final(self).model(), args_res_view(r)) == sp_eval_args(
                old(self).model(),
                exprs_view_from(args@, 0),
                i as int,
                acc.deep_view(),
                fuel as nat,
            ),
        decreases fuel,
    {
        reveal(sp_eval);
        reveal(sp_eval_args);
        reveal(sp_call_fn);
        reveal(sp_exec_block);
        reveal(sp_exec_stmt);
        reveal(sp_while_loop);
        reveal(sp_for_loop);
        reveal(sp_class_decl);
        proof {
            lemma_exprs_view_from(args@, 0);
        }
        if fuel == 0 {
            return Err(InterpreterError::OutOfFuel);
        }
        let f1 = fuel - 1;
        if i >= args.len() {
            return Ok(acc);
        }
        let ghost pre = *self;
        let ghost acc0 = acc.deep_view();
        let v = match self.evaluate(&args[i], f1) {
            Ok(v) => v,
            Err(er) => {
                return Err(er);
            },
        };
        let ghost vv = v.deep_view();
        let mut acc2 = acc;
        acc2.push(v);
        proof {
            assert(acc2.deep_view() =~= acc0.push(vv));
            assert forall|k: int|
                0 <= k < acc2@.len() implies self.value_ok(#[trigger] acc2@[k].deep_view()) by {
                if k < acc@.len() {
                    assert(acc2@[k] == acc@[k]);
                    lemma_value_ok_mono(pre, *self, acc@[k].deep_view());
                }
            }
        }
        let ghost mid = *self;
        let res = self.eval_args_from(args, i + 1, acc2, f1);
        proof {
            lemma_extends_trans(*old(self), mid, *self);
        }
        res
    }

    /// Calls a function: a fresh environment enclosing `parent` binds the
    /// parameters, the body runs in it, and a travelling `return` is turned
    /// back into a value at this boundary; an initializer hands back its
    /// `this`.
    #[verifier::rlimit(100)]
    #[verifier::spinoff_prover]
    fn call_function(&mut self, h: usize, parent: usize, args: Vec<Value>, fuel: u64) -> (r:
        Result<Value, InterpreterError>)
        requires
            old(self).wf(),
            h < old(self).nf(),
            parent < old(self).ne(),
            forall|k: int|
                0 <= k < args@.len() ==> old(self).value_ok(#[trigger] args@[k].deep_view()),
        ensures
            final(self).wf(),
            Interpreter::extends(*final(self), *old(self)),
            final(self).current == old(self).current,
            r is Ok ==> final(self).value_ok(r->Ok_0.deep_view()),
            r is Err ==> err_ok_for(*final(self), r->Err_0.deep_view()),
            (final(self).model(), res_view(r)) == sp_call_fn(
                old(self).model(),
                h,
                parent,
                args.deep_view(),
                fuel as nat,
            ),
        decreases fuel,
    {
        reveal(sp_eval);
        reveal(sp_eval_args);
        reveal(sp_call_fn);
        reveal(sp_exec_block);
        reveal(sp_exec_stmt);
        reveal(sp_while_loop);
        reveal(sp_for_loop);
        reveal(sp_class_decl);
        if fuel == 0 {
            return Err(InterpreterError::OutOfFuel);
        }
        let f1 = fuel - 1;
        let body = crate::ast::clone_statements(&self.funs[h].body);
        let params = crate::ast::clone_names(&self.funs[h].params);
        let is_init = self.funs[h].is_initializer;
        let ghost pre = *self;
        let call_env = self.new_env(Some(parent));
        let ghost st1 = m_new_env(pre.model(), Some(parent));
        let mut i: usize = 0;
        let n = if params.len() < args.len() {
            params.len()
        } else {
            args.len()
        };
        proof {
            assert(params.deep_view() =~= pre.model().funs[h as int].params);
            assert(crate::ast::stmts_view_from(body@, 0) =~= pre.model().funs[h as int].body);
        }
        while i < n
            invariant
                self.wf(),
                Interpreter::extends(*self, pre),
                call_env < self.ne(),
                self.current == pre.current,
                i <= n,
                n <= params@.len(),
                n <= args@.len(),
                n <= params.deep_view().len(),
                n <= args.deep_view().len(),
                forall|k: int|
                    0 <= k < args@.len() ==> pre.value_ok(#[trigger] args@[k].deep_view()),
                pre.ne() <= self.ne(),
                pre.nf() <= self.nf(),
                pre.nc() <= self.nc(),
                pre.ni() <= self.ni(),
                st1 == m_new_env(pre.model(), Some(parent)),
                self.model() == m_bind_params(
                    st1,
                    call_env,
                    params.deep_view(),
                    args.deep_view(),
                    i as int,
                ),
            decreases n - i,
        {
            let ghost mid = *self;
            let av = duplicate(&args[i]);
            proof {
                lemma_value_ok_mono(pre, mid, args@[i as int].deep_view());
            }
            self.env_define(call_env, &params[i], av);
            proof {
                lemma_extends_trans(pre, mid, *self);
                assert(params.deep_view()[i as int] == params@[i as int]@);
                assert(args.deep_view()[i as int] == args@[i as int].deep_view());
            }
            i = i + 1;
        }
        let prev = self.current;
        let ghost before_set = *self;
        self.current = call_env;
        proof {
            lemma_wf_same_arenas(before_set, *self);
            assert(self.model() =~~= InterpSpec { current: call_env, ..before_set.model() });
        }
        let ghost pre_body = *self;
        let body_result = self.exec_block_from(&body, 0, f1);
        let ghost after_body = *self;
        self.current = prev;
        proof {
            lemma_wf_same_arenas(after_body, *self);
            assert(self.model() =~~= InterpSpec { current: prev, ..after_body.model() });
            lemma_extends_trans(pre, pre_body, *self);
            lemma_extends_trans(*old(self), pre, *self);
            let stM = old(self).model();
            let paramsM = stM.funs[h as int].params;
            let bodyM = stM.funs[h as int].body;
            let f1n = (fuel as nat - 1) as nat;
            let st1g = m_new_env(stM, Some(parent));
            let nspec: int = if paramsM.len() <= args.deep_view().len() {
                paramsM.len() as int
            } else {
                args.deep_view().len() as int
            };
            let st2g = m_bind_params(st1g, call_env as usize, paramsM, args.deep_view(), nspec);
            assert(pre.model() == stM);
            assert(st1 == st1g);
            assert(paramsM =~= params.deep_view());
            assert(nspec == n as int);
            assert(before_set.model() == st2g);
            assert(st2g.current == prev);
            assert(pre_body.model() == InterpSpec { current: call_env, ..st2g });
            assert(bodyM =~= crate::ast::stmts_view_from(body@, 0));
            assert((after_body.model(), unit_res_view(body_result)) == sp_exec_block(
                InterpSpec { current: call_env, ..st2g },
                bodyM,
                0,
                f1n,
            ));
            assert(self.model() == InterpSpec {
                current: prev,
                ..sp_exec_block(InterpSpec { current: call_env, ..st2g }, bodyM, 0, f1n).0
            });
        }
        match body_result {
            Ok(_) => {
                if is_init {
                    let this_key = String::from_str("this");
                    match self.env_get_from(call_env, &this_key) {
                        Some(v) => Ok(v),
                        None => Ok(Value::Nil),
                    }
                } else {
                    Ok(Value::Nil)
                }
            },
            Err(InterpreterError::ReturnError(v)) => {
                if is_init {
                    let this_key = String::from_str("this");
                    match self.env_get_from(call_env, &this_key) {
                        Some(tv) => Ok(tv),
                        None => Ok(Value::Nil),
                    }
                } else {
                    Ok(v)
                }
            },
            Err(er) => Err(er),
        }
    }

    /// Runs the statements of a block in order.
    #[verifier::rlimit(100)]
    #[verifier::spinoff_prover]
    fn exec_block_from(&mut self, list: &Vec<Statement>, i: usize, fuel: u64) -> (r: Result<
        (),
        InterpreterError,
    >)
        requires
            old(self).wf(),
        ensures
            final(self).wf(),
            Interpreter::extends(*final(self), *old(self)),
            final(self).current == old(self).current,
            r is Err ==> err_ok_for(*final(self), r->Err_0.deep_view()),
            (final(self).model(), unit_res_view(r)) == sp_exec_block(
                old(self).model(),
                crate::ast::stmts_view_from(list@, 0),
                i as int,
                fuel as nat,
            ),
        decreases fuel,
    {
        reveal(sp_eval);
        reveal(sp_eval_args);
        reveal(sp_call_fn);
        reveal(sp_exec_block);
        reveal(sp_exec_stmt);
        reveal(sp_while_loop);
        reveal(sp_for_loop);
        reveal(sp_class_decl);
        proof {
            crate::ast::lemma_stmts_view_from(list@, 0);
        }
        if fuel == 0 {
            return Err(InterpreterError::OutOfFuel);
        }
        let f1 = fuel - 1;
        if i >= list.len() {
            return Ok(());
        }
        match self.exec_stmt(&list[i], f1) {
            Ok(_) => {},
            Err(er) => {
                return Err(er);
            },
        }
        let ghost mid = *self;
        let res = self.exec_block_from(list, i + 1, f1);
        proof {
            lemma_extends_trans(*old(self), mid, *self);
        }
        res
    }

    /// Runs a `while` loop under the budget.
    #[verifier::rlimit(100)]
    #[verifier::spinoff_prover]
    fn exec_while(&mut self, cond: &Expression, body: &Statement, fuel: u64) -> (r: Result<
        (),
        InterpreterError,
    >)
        requires
            old(self).wf(),
        ensures
            final(self).wf(),
            Interpreter::extends(*final(self), *old(self)),
            final(self).current == old(self).current,
            r is Err ==> err_ok_for(*final(self), r->Err_0.deep_view()),
            (final(self).model(), unit_res_view(r)) == sp_while_loop(
                old(self).model(),
                cond.deep_view(),
                body.deep_view(),
                fuel as nat,
            ),
        decreases fuel,
    {
        reveal(sp_eval);
        reveal(sp_eval_args);
        reveal(sp_call_fn);
        reveal(sp_exec_block);
        reveal(sp_exec_stmt);
        reveal(sp_while_loop);
        reveal(sp_for_loop);
        reveal(sp_class_decl);
        if fuel == 0 {
            return Err(InterpreterError::OutOfFuel);
        }
        let f1 = fuel - 1;
        let ghost pre = *self;
        let cv = match self.evaluate(cond, f1) {
            Ok(v) => v,
            Err(er) => {
                return Err(er);
            },
        };
        if !is_truthy(&cv) {
            return Ok(());
        }
        let ghost mid = *self;
        match self.exec_stmt(body, f1) {
            Ok(_) => {},
            Err(er) => {
                proof {
                    lemma_extends_trans(pre, mid, *self);
                }
                return Err(er);
            },
        }
        let ghost mid2 = *self;
        let res = self.exec_while(cond, body, f1);
        proof {
            lemma_extends_trans(mid, mid2, *self);
            lemma_extends_trans(pre, mid, *self);
        }
        res
    }

    /// Runs the repeating part of a `for` loop under the budget: condition,
    /// body, increment, and around again.
    #[verifier::rlimit(100)]
    #[verifier::spinoff_prover]
    fn exec_for(
        &mut self,
        cond: &Option<Expression>,
        incr: &Option<Expression>,
        body: &Statement,
        fuel: u64,
    ) -> (r: Result<(), InterpreterError>)
        requires
            old(self).wf(),
        ensures
            final(self).wf(),
            Interpreter::extends(*final(self), *old(self)),
            final(self).current == old(self).current,
            r is Err ==> err_ok_for(*final(self), r->Err_0.deep_view()),
            (final(self).model(), unit_res_view(r)) == sp_for_loop(
                old(self).model(),
                cond.deep_view(),
                incr.deep_view(),
                body.deep_view(),
                fuel as nat,
            ),
        decreases fuel,
    {
        reveal(sp_eval);
        reveal(sp_eval_args);
        reveal(sp_call_fn);
        reveal(sp_exec_block);
        reveal(sp_exec_stmt);
        reveal(sp_while_loop);
        reveal(sp_for_loop);
        reveal(sp_class_decl);
        if fuel == 0 {
            return Err(InterpreterError::OutOfFuel);
        }
        let f1 = fuel - 1;
        let ghost pre = *self;
        let go = match cond {
            Some(c) => {
                let cv = match self.evaluate(c, f1) {
                    Ok(v) => v,
                    Err(er) => {
                        return Err(er);
                    },
                };
                is_truthy(&cv)
            },
            None => true,
        };
        if !go {
            return Ok(());
        }
        let ghost mid = *self;
        match self.exec_stmt(body, f1) {
            Ok(_) => {},
            Err(er) => {
                proof {
                    lemma_extends_trans(pre, mid, *self);
                }
                return Err(er);
            },
        }
        let ghost mid2 = *self;
        match incr {
            Some(ic) => {
                match self.evaluate(ic, f1) {
                    Ok(_) => {},
                    Err(er) => {
                        proof {
                            lemma_extends_trans(mid, mid2, *self);
                            lemma_extends_trans(pre, mid, *self);
                        }
                        return Err(er);
                    },
                }
            },
            None => {},
        }
        let ghost mid3 = *self;
        let res = self.exec_for(cond, incr, body, f1);
        proof {
            lemma_extends_trans(mid2, mid3, *self);
            lemma_extends_trans(mid, mid2, *self);
            lemma_extends_trans(pre, mid, *self);
        }
        res
    }

    /// Executes one statement under the budget.
    #[verifier::rlimit(100)]
    #[verifier::spinoff_prover]
    pub fn exec_stmt(&mut self, st: &Statement, fuel: u64) -> (r: Result<(), InterpreterError>)
        requires
            old(self).wf(),
        ensures
            final(self).wf(),
            Interpreter::extends(*final(self), *old(self)),
            final(self).current == old(self).current,
            r is Err ==> err_ok_for(*final(self), r->Err_0.deep_view()),
            (final(self).model(), unit_res_view(r)) == sp_exec_stmt(
                old(self).model(),
                st.deep_view(),
                fuel as nat,
            ),
        decreases fuel,
    {
        reveal(sp_eval);
        reveal(sp_eval_args);
        reveal(sp_call_fn);
        reveal(sp_exec_block);
        reveal(sp_exec_stmt);
        reveal(sp_while_loop);
        reveal(sp_for_loop);
        reveal(sp_class_decl);
        if fuel == 0 {
            return Err(InterpreterError::OutOfFuel);
        }
        let f1 = fuel - 1;
        match st {
            Statement::Print(e) => {
                let v = match self.evaluate(e, f1) {
                    Ok(v) => v,
                    Err(er) => {
                        return Err(er);
                    },
                };
                let line = self.display_value(&v);
                let ghost before_push = *self;
                let ghost line_view = line@;
                self.output.push(line);
                proof {
                    lemma_wf_same_arenas(before_push, *self);
                    assert(self.model() =~~= InterpSpec {
                        output: before_push.model().output.push(line_view),
                        ..before_push.model()
                    });
                }
                Ok(())
            },
            Statement::Expr(e) => {
                match self.evaluate(e, f1) {
                    Ok(_) => Ok(()),
                    Err(er) => Err(er),
                }
            },
            Statement::Var { name, initializer } => {
                let v = match initializer {
                    Some(e) => match self.evaluate(e, f1) {
                        Ok(v) => v,
                        Err(er) => {
                            return Err(er);
                        },
                    },
                    None => Value::Nil,
                };
                self.env_define(self.current, name, v);
                Ok(())
            },
            Statement::Block(list) => {
                let prev = self.current;
                let benv = self.new_env(Some(prev));
                let ghost before_set = *self;
                self.current = benv;
                proof {
                    lemma_wf_same_arenas(before_set, *self);
                    assert(self.model() =~~= InterpSpec { current: benv, ..before_set.model() });
                }
                let ghost mid = *self;
                let res = self.exec_block_from(list, 0, f1);
                let ghost after_body = *self;
                self.current = prev;
                proof {
                    lemma_wf_same_arenas(after_body, *self);
                    assert(self.model() =~~= InterpSpec { current: prev, ..after_body.model() });
                    lemma_extends_trans(*old(self), mid, *self);
                }
                res
            },
            Statement::If { condition, then_branch, else_branch } => {
                let cv = match self.evaluate(condition, f1) {
                    Ok(v) => v,
                    Err(er) => {
                        return Err(er);
                    },
                };
                let ghost mid = *self;
                let res = if is_truthy(&cv) {
                    self.exec_stmt(then_branch, f1)
                } else {
                    match else_branch {
                        Some(eb) => self.exec_stmt(eb, f1),
                        None => Ok(()),
                    }
                };
                proof {
                    lemma_extends_trans(*old(self), mid, *self);
                }
                res
            },
            Statement::While { condition, body } => self.exec_while(condition, body, f1),
            Statement::For { initialize, condition, increment, body } => {
                let prev = self.current;
                let lenv = self.new_env(Some(prev));
                let ghost before_set = *self;
                self.current = lenv;
                proof {
                    lemma_wf_same_arenas(before_set, *self);
                    assert(self.model() =~~= InterpSpec { current: lenv, ..before_set.model() });
                }
                let ghost mid = *self;
                match initialize {
                    Some(ist) => {
                        match self.exec_stmt(ist, f1) {
                            Ok(_) => {},
                            Err(er) => {
                                let ghost after_init = *self;
                                self.current = prev;
                                proof {
                                    lemma_wf_same_arenas(after_init, *self);
                                    assert(self.model() =~~= InterpSpec {
                                        current: prev,
                                        ..after_init.model()
                                    });
                                    lemma_extends_trans(*old(self), mid, *self);
                                }
                                return Err(er);
                            },
                        }
                    },
                    None => {},
                }
                let ghost mid2 = *self;
                let res = self.exec_for(condition, increment, body, f1);
                let ghost after_body = *self;
                self.current = prev;
                proof {
                    lemma_wf_same_arenas(after_body, *self);
                    assert(self.model() =~~= InterpSpec { current: prev, ..after_body.model() });
                    lemma_extends_trans(mid, mid2, *self);
                    lemma_extends_trans(*old(self), mid, *self);
                }
                res
            },
            Statement::Function { name, params, body } => {
                let f = LoxFunction {
                    name: name.clone(),
                    params: crate::ast::clone_names(params),
                    body: crate::ast::clone_statements(body),
                    env: self.current,
                    is_initializer: false,
                };
                let h = self.push_fun(f);
                let ghost mid = *self;
                self.env_define(self.current, name, Value::Function(h));
                proof {
                    lemma_extends_trans(*old(self), mid, *self);
                }
                Ok(())
            },
            Statement::Return { value } => {
                let v = match value {
                    Some(e) => match self.evaluate(e, f1) {
                        Ok(v) => v,
                        Err(er) => {
                            return Err(er);
                        },
                    },
                    None => Value::Nil,
                };
                Err(InterpreterError::ReturnError(v))
            },
            Statement::Class { name, superclass, methods } => self.exec_class(
                name,
                superclass,
                methods,
                f1,
            ),
        }
    }

    /// Declares a class: the name enters the current environment, the
    /// superclass name is looked up and must be a class, the methods close
    /// over an environment that holds `super` when there is a superclass,
    /// and the finished class is assigned to its name.
    #[verifier::rlimit(100)]
    #[verifier::spinoff_prover]
    fn exec_class(
        &mut self,
        name: &String,
        superclass: &Option<String>,
        methods: &Vec<Statement>,
        fuel: u64,
    ) -> (r: Result<(), InterpreterError>)
        requires
            old(self).wf(),
        ensures
            final(self).wf(),
            Interpreter::extends(*final(self), *old(self)),
            final(self).current == old(self).current,
            r is Err ==> err_ok_for(*final(self), r->Err_0.deep_view()),
            (final(self).model(), unit_res_view(r)) == sp_class_decl(
                old(self).model(),
                name@,
                superclass.deep_view(),
                crate::ast::stmts_view_from(methods@, 0),
                fuel as nat,
            ),
        decreases fuel,
    {
        reveal(sp_eval);
        reveal(sp_eval_args);
        reveal(sp_call_fn);
        reveal(sp_exec_block);
        reveal(sp_exec_stmt);
        reveal(sp_while_loop);
        reveal(sp_for_loop);
        reveal(sp_class_decl);
        proof {
            crate::ast::lemma_stmts_view_from(methods@, 0);
        }
        if fuel == 0 {
            return Err(InterpreterError::OutOfFuel);
        }
        self.env_define(self.current, name, Value::Nil);
        let ghost s0 = *self;
        let sup: Option<usize> = match superclass {
            Some(sup_name) => {
                match self.env_get_from(self.current, sup_name) {
                    Some(Value::Class(c)) => Some(c),
                    _ => {
                        let mut msg = String::from_str("Undefined superclass '");
                        msg.append(sup_name.as_str());
                        msg.append("'.");
                        return Err(InterpreterError::Message(msg, ExitCode::RunTimeError));
                    },
                }
            },
            None => None,
        };
        let closure = match sup {
            Some(c) => {
                let ce = self.new_env(Some(self.current));
                let super_key = String::from_str("super");
                let ghost mid = *self;
                self.env_define(ce, &super_key, Value::Class(c));
                proof {
                    lemma_extends_trans(s0, mid, *self);
                }
                ce
            },
            None => self.current,
        };
        let ghost st3 = *self;
        let mut method_handles: Vec<(String, usize)> = Vec::new();
        let mut i: usize = 0;
        proof {
            assert(method_handles.deep_view() =~= Seq::<(Seq<char>, usize)>::empty());
        }
        while i < methods.len()
            invariant
                self.wf(),
                Interpreter::extends(*self, s0),
                self.current == s0.current,
                closure < self.ne(),
                i <= methods@.len(),
                match sup {
                    Some(c) => c < self.nc(),
                    None => true,
                },
                forall|k: int|
                    0 <= k < method_handles@.len() ==> (#[trigger] method_handles@[k].1)
                        < self.nf(),
                (self.model(), method_handles.deep_view()) == m_collect_methods(
                    st3.model(),
                    crate::ast::stmts_view_from(methods@, 0),
                    closure,
                    i as int,
                ),
            decreases methods@.len() - i,
        {
            proof {
                crate::ast::lemma_stmts_view_from(methods@, 0);
            }
            match &methods[i] {
                Statement::Function { name: mname, params, body } => {
                    let is_init = crate::text::str_eq(mname.as_str(), "init");
                    let f = LoxFunction {
                        name: mname.clone(),
                        params: crate::ast::clone_names(params),
                        body: crate::ast::clone_statements(body),
                        env: closure,
                        is_initializer: is_init,
                    };
                    let ghost mid = *self;
                    let ghost pre_handles = method_handles.deep_view();
                    let h = self.push_fun(f);
                    proof {
                        lemma_extends_trans(s0, mid, *self);
                    }
                    method_handles.push((mname.clone(), h));
                    proof {
                        assert(method_handles.deep_view() =~= pre_handles.push((mname@, h)));
                        assert(f.model() =~= FunSpec {
                            name: mname@,
                            params: params.deep_view(),
                            body: crate::ast::stmts_view_from(body@, 0),
                            env: closure,
                            is_initializer: mname@ == "init"@,
                        });
                    }
                },
                _ => {},
            }
            i = i + 1;
        }
        let cls = LoxClass {
            name: name.clone(),
            superclass: sup,
            methods: method_handles,
        };
        let ghost mid2 = *self;
        let ch = self.push_class(cls);
        proof {
            lemma_extends_trans(s0, mid2, *self);
        }
        let ghost mid3 = *self;
        let _assigned = self.env_assign_walk(self.current, name, Value::Class(ch));
        proof {
            lemma_extends_trans(s0, mid3, *self);
        }
        Ok(())
    }

    /// Resolves and runs a program from scratch under the budget: the
    /// statements execute in order against a fresh interpreter, and whatever
    /// `print` produced comes back alongside the outcome.  A resolution
    /// error comes back as a static error and nothing runs.
    pub fn run(statements: &Vec<Statement>, fuel: u64) -> (r: (
        Result<(), InterpreterError>,
        Vec<String>,
    ))
        ensures
            exists|clock_bits: u64|
                (unit_res_view(r.0), r.1.deep_view()) == sp_run(
                    crate::ast::stmts_view_from(statements@, 0),
                    clock_bits,
                    fuel as nat,
                ),
            match crate::resolver::sp_res_stmts(
                crate::ast::stmts_view_from(statements@, 0),
                0,
                Seq::<crate::ast::StmtSpec>::empty(),
                Seq::<crate::resolver::ScopeSpec>::empty(),
                crate::resolver::FunctionType::NotInFunction,
                crate::resolver::ClassType::NotInClass,
            ) {
                Err(er) => r.0 is Err && (match (r.0->Err_0.deep_view(), er) {
                    (
                        InterpreterErrorSpec::Message(m, code),
                        crate::resolver::ResolverErrorSpec::Message(s),
                    ) => code == ExitCode::CompilerError && m == "Resolution error: "@ + s,
                    _ => false,
                }) && r.1@.len() == 0,
                Ok(_) => true,
            },
    {
        let ghost stmts_v = crate::ast::stmts_view_from(statements@, 0);
        let mut resolver = Resolver::new();
        proof {
            assert(resolver.scs() =~~= Seq::<crate::resolver::ScopeSpec>::empty());
        }
        let resolved = match resolver.resolve_stmts(statements) {
            Ok(v) => v,
            Err(er) => {
                let mut msg = String::from_str("Resolution error: ");
                match er {
                    crate::resolver::ResolverError::Message(s) => {
                        msg.append(s.as_str());
                    },
                }
                let out: Vec<String> = Vec::new();
                let res = (Err(InterpreterError::Message(msg, ExitCode::CompilerError)), out);
                proof {
                    assert(res.1.deep_view() =~= Seq::<Seq<char>>::empty());
                    assert((unit_res_view(res.0), res.1.deep_view()) == sp_run(
                        stmts_v,
                        0u64,
                        fuel as nat,
                    ));
                }
                return res;
            },
        };
        let ghost resolved_v = crate::ast::stmts_view_from(resolved@, 0);
        let it0 = Interpreter::new();
        let ghost cb = it0.clock_bits;
        let mut it = it0;
        let mut i: usize = 0;
        proof {
            crate::ast::lemma_stmts_view_from(resolved@, 0);
            assert(crate::ast::stmts_view_from(resolved@, 0) =~= resolved.deep_view());
        }
        while i < resolved.len()
            invariant
                it.wf(),
                i <= resolved@.len(),
                stmts_v == crate::ast::stmts_view_from(statements@, 0),
                resolved_v == crate::ast::stmts_view_from(resolved@, 0),
                resolved_v.len() == resolved@.len(),
                crate::resolver::sp_res_stmts(
                    stmts_v,
                    0,
                    Seq::<crate::ast::StmtSpec>::empty(),
                    Seq::<crate::resolver::ScopeSpec>::empty(),
                    crate::resolver::FunctionType::NotInFunction,
                    crate::resolver::ClassType::NotInClass,
                ) matches Ok((rv, _)) && rv == resolved_v,
                sp_run_stmts(m_fresh(cb), resolved_v, 0, fuel as nat) == sp_run_stmts(
                    it.model(),
                    resolved_v,
                    i as int,
                    fuel as nat,
                ),
            decreases resolved@.len() - i,
        {
            proof {
                crate::ast::lemma_stmts_view_from(resolved@, 0);
            }
            match it.exec_stmt(&resolved[i], fuel) {
                Ok(_) => {},
                Err(er) => {
                    let res = (Err(er), it.output);
                    proof {
                        assert(res.1.deep_view() =~= Seq::new(
                            res.1@.len(),
                            |k: int| res.1@[k]@,
                        ));
                        assert((unit_res_view(res.0), res.1.deep_view()) == sp_run(
                            stmts_v,
                            cb,
                            fuel as nat,
                        ));
                    }
                    return res;
                },
            }
            i = i + 1;
        }
        let res = (Ok(()), it.output);
        proof {
            assert(res.1.deep_view() =~= Seq::new(res.1@.len(), |k: int| res.1@[k]@));
            assert((unit_res_view(res.0), res.1.deep_view()) == sp_run(stmts_v, cb, fuel as nat));
        }
        res
    }
}

} // verus!
