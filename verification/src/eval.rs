//! The evaluator and the built-in function library.
//!
//! Evaluation is a structural recursion over the four expression variants:
//! numbers and booleans are self-evaluating, a bare symbol is looked up and
//! invoked with a throwaway `Bool(true)` argument, and a list is a call —
//! its arguments are evaluated left to right, fail-fast, before the head's
//! rendered text is looked up in the environment and the found built-in is
//! invoked once with the evaluated arguments packaged as a fresh list.
//!
//! The contracts here are exact: [`spec_eval`] states the whole of
//! evaluation — which expressions succeed, which of the three errors comes
//! back otherwise, and the value returned — and [`spec_apply`] states every
//! built-in's answer, with the host's arithmetic, comparisons, trigonometry
//! and rendering named through the spec functions of
//! [`NumHost`](crate::host::NumHost). Built-ins never fail: they select their
//! numeric arguments and fall back to exact defaults when too few are
//! present.

use vstd::prelude::*;

use crate::env::{Builtin, LisperEnv};
use crate::exp::{lemma_models_of, models_of, spec_text, ExpModel, LisperErr, LisperExp};
use crate::host::{ArithOp, CompareOp, NumHost, TrigOp};

verus! {

/// The numeric elements of a sequence, in order.
pub open spec fn nums_of_items(items: Seq<ExpModel>) -> Seq<u64>
    decreases items.len(),
{
    if items.len() == 0 {
        Seq::empty()
    } else {
        match items[0] {
            ExpModel::Number(n) => seq![n] + nums_of_items(items.skip(1)),
            _ => nums_of_items(items.skip(1)),
        }
    }
}

/// The numeric arguments a built-in selects out of its packaged argument
/// list: the numbers of the list in order, and none when the argument is not
/// a list.
pub open spec fn nums_of(e: ExpModel) -> Seq<u64> {
    match e {
        ExpModel::List(items) => nums_of_items(items),
        _ => Seq::empty(),
    }
}

/// The scalar at position zero of the argument list, if the argument is a
/// non-empty list holding a number there: all a trigonometric built-in reads.
pub open spec fn first_num(e: ExpModel) -> Option<u64> {
    match e {
        ExpModel::List(items) => if items.len() > 0 {
            match items[0] {
                ExpModel::Number(n) => Some(n),
                _ => None,
            }
        } else {
            None
        },
        _ => None,
    }
}

/// The left-to-right fold of an arithmetic operation over a sequence of
/// scalars, seeded from the first of them: no scalars give the scalar zero,
/// one scalar gives that scalar.
pub open spec fn spec_fold<H: NumHost>(host: &H, op: ArithOp, nums: Seq<u64>) -> u64
    decreases nums.len(),
{
    if nums.len() == 0 {
        0
    } else if nums.len() == 1 {
        nums[0]
    } else {
        host.arith_spec(op, spec_fold(host, op, nums.drop_last()), nums.last())
    }
}

/// The exact answer of a built-in on a packaged argument list: an arithmetic
/// operation folds over the numeric arguments; a comparator keeps only the
/// last adjacent comparison and is false below two numeric arguments; a
/// trigonometric operation reads the scalar at position zero and is the
/// scalar zero without one; pi ignores its argument and is one host constant.
pub open spec fn spec_apply<H: NumHost>(host: &H, b: Builtin, args: ExpModel) -> ExpModel {
    match b {
        Builtin::Arith(op) => ExpModel::Number(spec_fold(host, op, nums_of(args))),
        Builtin::Compare(op) => if nums_of(args).len() < 2 {
            ExpModel::Bool(false)
        } else {
            ExpModel::Bool(
                host.compare_spec(
                    op,
                    nums_of(args)[nums_of(args).len() - 2],
                    nums_of(args)[nums_of(args).len() - 1],
                ),
            )
        },
        Builtin::Trig(op) => match first_num(args) {
            Some(n) => ExpModel::Number(host.trig_spec(op, n)),
            None => ExpModel::Number(0),
        },
        Builtin::Pi => ExpModel::Number(host.pi_spec()),
    }
}

/// The exact result of evaluation: atoms are self-evaluating; a bare symbol
/// must be bound and is invoked with a throwaway `Bool(true)` argument; a
/// call must be non-empty, evaluates its arguments left to right fail-fast,
/// and then invokes the built-in that the head's rendered text names, failing
/// when the environment holds no such name.
pub open spec fn spec_eval<H: NumHost>(
    host: &H,
    e: ExpModel,
    env: Map<Seq<char>, Builtin>,
) -> Result<ExpModel, Seq<char>>
    decreases e,
{
    match e {
        ExpModel::Symbol(s) => if env.contains_key(s) {
            Ok(spec_apply(host, env[s], ExpModel::Bool(true)))
        } else {
            Err("Eval issue, not a real expression"@)
        },
        ExpModel::List(items) => if items.len() == 0 {
            Err("Error reading expression"@)
        } else {
            match spec_eval_args(host, items.skip(1), env) {
                Ok(ev) => {
                    let key = spec_text(host, items[0]);
                    if env.contains_key(key) {
                        Ok(spec_apply(host, env[key], ExpModel::List(ev)))
                    } else {
                        Err("Error, function not found."@)
                    }
                },
                Err(m) => Err(m),
            }
        },
        _ => Ok(e),
    }
}

/// The values of a call's arguments, evaluated left to right, or the first
/// evaluation error (fail-fast: nothing after the failing argument counts).
pub open spec fn spec_eval_args<H: NumHost>(
    host: &H,
    args: Seq<ExpModel>,
    env: Map<Seq<char>, Builtin>,
) -> Result<Seq<ExpModel>, Seq<char>>
    decreases args,
{
    if args.len() == 0 {
        Ok(Seq::empty())
    } else {
        match spec_eval(host, args[0], env) {
            Ok(v) => match spec_eval_args(host, args.skip(1), env) {
                Ok(vs) => Ok(seq![v] + vs),
                Err(m) => Err(m),
            },
            Err(m) => Err(m),
        }
    }
}

/// Selects the numeric arguments out of a packaged argument list, in order.
pub fn numbers_in(args: &LisperExp) -> (r: Vec<u64>)
    ensures
        r@ == nums_of(args@),
{
    let mut nums: Vec<u64> = Vec::new();
    match args {
        LisperExp::List(items) => {
            let ghost m = models_of(items@);
            proof {
                broadcast use lemma_models_of;

                assert(m.skip(0) =~= m);
                assert(nums@ + nums_of_items(m) =~= nums_of_items(m));
            }
            let n = items.len();
            let mut i: usize = 0;
            while i < n
                invariant
                    i <= n,
                    n == items@.len(),
                    m == models_of(items@),
                    m.len() == n,
                    forall|j: int| 0 <= j < n ==> m[j] == items@[j]@,
                    nums_of_items(m) =~= nums@ + nums_of_items(m.skip(i as int)),
                decreases n - i,
            {
                proof {
                    assert(m.skip(i as int)[0] == m[i as int]);
                    assert(m.skip(i as int).skip(1) =~= m.skip(i + 1));
                }
                let ghost before = nums@;
                match &items[i] {
                    LisperExp::Number(v) => {
                        nums.push(*v);
                        proof {
                            assert(before + (seq![items@[i as int]@->Number_0] + nums_of_items(
                                m.skip(i + 1),
                            )) =~= nums@ + nums_of_items(m.skip(i + 1)));
                        }
                    },
                    _ => {},
                }
                i += 1;
            }
            proof {
                assert(m.skip(n as int) =~= Seq::<ExpModel>::empty());
                assert(nums@ + Seq::<u64>::empty() =~= nums@);
            }
        },
        _ => {},
    }
    nums
}

/// An arithmetic built-in: folds the operation over the numeric arguments,
/// left to right, seeded from the first of them; without numeric arguments
/// the answer is the scalar zero.
pub fn arith_fold<H: NumHost>(op: ArithOp, args: &LisperExp, host: &H) -> (r: LisperExp)
    ensures
        r@ == ExpModel::Number(spec_fold(host, op, nums_of(args@))),
{
    let nums = numbers_in(args);
    if nums.len() == 0 {
        return LisperExp::Number(0);
    }
    let mut acc: u64 = nums[0];
    let mut i: usize = 1;
    proof {
        assert(nums@.take(1) =~= seq![nums@[0]]);
    }
    while i < nums.len()
        invariant
            1 <= i <= nums@.len(),
            acc == spec_fold(host, op, nums@.take(i as int)),
        decreases nums@.len() - i,
    {
        proof {
            assert(nums@.take(i + 1).drop_last() =~= nums@.take(i as int));
            assert(nums@.take(i + 1).last() == nums@[i as int]);
        }
        acc = host.arith(op, acc, nums[i]);
        i += 1;
    }
    proof {
        assert(nums@.take(nums@.len() as int) =~= nums@);
    }
    LisperExp::Number(acc)
}

/// A comparator built-in: walks the numeric arguments pairwise and keeps only
/// the outcome of the last adjacent comparison; with fewer than two numeric
/// arguments the answer is false.
pub fn compare_last<H: NumHost>(op: CompareOp, args: &LisperExp, host: &H) -> (r: LisperExp)
    ensures
        r@ == spec_apply(host, Builtin::Compare(op), args@),
{
    let nums = numbers_in(args);
    if nums.len() < 2 {
        return LisperExp::Bool(false);
    }
    let mut res: bool = false;
    let mut prev: u64 = nums[0];
    let mut i: usize = 1;
    while i < nums.len()
        invariant
            1 <= i <= nums@.len(),
            2 <= nums@.len(),
            prev == nums@[i - 1],
            i >= 2 ==> res == host.compare_spec(op, nums@[i - 2], nums@[i - 1]),
        decreases nums@.len() - i,
    {
        res = host.compare(op, prev, nums[i]);
        prev = nums[i];
        i += 1;
    }
    LisperExp::Bool(res)
}

/// A trigonometric built-in: reads the argument at position zero only and
/// answers the scalar zero when it is absent or not a number.
pub fn trig_first<H: NumHost>(op: TrigOp, args: &LisperExp, host: &H) -> (r: LisperExp)
    ensures
        r@ == spec_apply(host, Builtin::Trig(op), args@),
{
    match args {
        LisperExp::List(items) => {
            if items.len() > 0 {
                let h = &items[0];
                proof {
                    broadcast use lemma_models_of;

                    assert(args@ == ExpModel::List(models_of(items@)));
                    assert(models_of(items@)[0] == items@[0]@);
                    assert(h@ == items@[0]@);
                }
                match h {
                    LisperExp::Number(n) => LisperExp::Number(host.trig(op, *n)),
                    _ => LisperExp::Number(0),
                }
            } else {
                LisperExp::Number(0)
            }
        },
        _ => LisperExp::Number(0),
    }
}

/// Runs one built-in on a packaged argument list, answering exactly
/// [`spec_apply`]. Built-ins never fail.
pub fn apply_builtin<H: NumHost>(b: Builtin, args: &LisperExp, host: &H) -> (r: LisperExp)
    ensures
        r@ == spec_apply(host, b, args@),
{
    match b {
        Builtin::Arith(op) => arith_fold(op, args, host),
        Builtin::Compare(op) => compare_last(op, args, host),
        Builtin::Trig(op) => trig_first(op, args, host),
        Builtin::Pi => LisperExp::Number(host.pi()),
    }
}

/// The worker behind [`eval`], recursing by reference.
fn eval_ref<H: NumHost>(exp: &LisperExp, env: &LisperEnv, host: &H) -> (r: Result<
    LisperExp,
    LisperErr,
>)
    ensures
        match spec_eval(host, exp@, env.as_map()) {
            Ok(v) => r matches Ok(out) && out@ == v,
            Err(m) => (r matches Err(e) && (e matches LisperErr::Reason(s) && s@ == m)),
        },
    decreases exp,
{
    match exp {
        LisperExp::List(list) => {
            if list.len() == 0 {
                return Err(LisperErr::Reason("Error reading expression".to_owned()));
            }
            proof {
                broadcast use lemma_models_of;

                assert(*exp == LisperExp::List(*list));
                assert(exp@ == ExpModel::List(models_of(list@)));
            }
            let ghost m = models_of(list@);
            let ghost argm = m.skip(1);
            let mut evaluated: Vec<LisperExp> = Vec::new();
            let mut i: usize = 1;
            proof {
                assert(argm.skip(0) =~= argm);
                assert(models_of(evaluated@) =~= Seq::<ExpModel>::empty());
                if let Ok(vs) = spec_eval_args(host, argm, env.as_map()) {
                    assert(Seq::<ExpModel>::empty() + vs =~= vs);
                }
            }
            while i < list.len()
                invariant
                    1 <= i <= list@.len(),
                    *exp == LisperExp::List(*list),
                    exp@ == ExpModel::List(m),
                    m == models_of(list@),
                    argm == m.skip(1),
                    m.len() == list@.len(),
                    forall|j: int| 0 <= j < list@.len() ==> m[j] == list@[j]@,
                    evaluated@.len() == i - 1,
                    (match spec_eval_args(host, argm.skip(i - 1), env.as_map()) {
                        Ok(vs) => spec_eval_args(host, argm, env.as_map()) == Ok::<
                            Seq<ExpModel>,
                            Seq<char>,
                        >(models_of(evaluated@) + vs),
                        Err(msg) => spec_eval_args(host, argm, env.as_map()) == Err::<
                            Seq<ExpModel>,
                            Seq<char>,
                        >(msg),
                    }),
                decreases list@.len() - i,
            {
                let arg = &list[i];
                proof {
                    assert(decreases_to!(*exp => exp->List_0));
                    assert(exp->List_0 == *list);
                    assert(decreases_to!(*list => list@));
                    assert(decreases_to!(list@ => list@[i as int]));
                    assert(argm.skip(i - 1)[0] == argm[i - 1]);
                    assert(argm[i - 1] == m[i as int]);
                    assert(arg@ == m[i as int]);
                    assert(argm.skip(i - 1).skip(1) =~= argm.skip(i as int));
                }
                match eval_ref(arg, env, host) {
                    Ok(v) => {
                        let ghost vm = v@;
                        let ghost before = models_of(evaluated@);
                        evaluated.push(v);
                        proof {
                            broadcast use lemma_models_of;

                            assert(models_of(evaluated@) =~= before + seq![vm]);
                            if let Ok(vs) = spec_eval_args(host, argm.skip(i as int), env.as_map())
                                {
                                assert((before + seq![vm]) + vs =~= before + (seq![vm] + vs));
                            }
                        }
                    },
                    Err(e) => {
                        return Err(e);
                    },
                }
                i += 1;
            }
            proof {
                assert(argm.skip(list@.len() - 1) =~= Seq::<ExpModel>::empty());
                assert(models_of(evaluated@) + Seq::<ExpModel>::empty() =~= models_of(evaluated@));
            }
            let head = &list[0];
            let key: String = head.to_text(host);
            proof {
                assert(head@ == m[0]);
                assert(key@ == spec_text(host, m[0]));
            }
            match env.lookup(key.as_str()) {
                Some(b) => {
                    let packed = LisperExp::List(evaluated);
                    Ok(apply_builtin(b, &packed, host))
                },
                None => Err(LisperErr::Reason("Error, function not found.".to_owned())),
            }
        },
        LisperExp::Number(n) => Ok(LisperExp::Number(*n)),
        LisperExp::Symbol(sym) => {
            match env.lookup(sym.as_str()) {
                Some(b) => Ok(apply_builtin(b, &LisperExp::Bool(true), host)),
                None => Err(LisperErr::Reason("Eval issue, not a real expression".to_owned())),
            }
        },
        LisperExp::Bool(b) => Ok(LisperExp::Bool(*b)),
    }
}

/// Evaluates an expression under an environment, exactly as [`spec_eval`]
/// states: numbers and booleans are self-evaluating; a call evaluates its
/// arguments left to right and propagates the first failure before its head
/// is even looked up, then invokes the built-in the head's rendered text
/// names and returns that answer unchanged; a bare bound symbol is invoked
/// with a throwaway `Bool(true)` argument.
pub fn eval<H: NumHost>(exp: LisperExp, env: &LisperEnv, host: &H) -> (r: Result<
    LisperExp,
    LisperErr,
>)
    ensures
        match spec_eval(host, exp@, env.as_map()) {
            Ok(v) => r matches Ok(out) && out@ == v,
            Err(m) => (r matches Err(e) && (e matches LisperErr::Reason(s) && s@ == m)),
        },
{
    eval_ref(&exp, env, host)
}

} // verus!
