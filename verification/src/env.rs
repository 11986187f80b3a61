//! The environment: a read-only mapping from operation-name text to the
//! built-in operation bound under that name, populated exactly once by
//! [`create_default_env`].

use vstd::prelude::*;

use crate::host::{ArithOp, CompareOp, TrigOp};
use crate::parser::str_eq;

verus! {

/// A built-in operation of the environment. Every built-in takes one
/// pre-evaluated, pre-packaged argument list and never fails.
#[derive(Clone, Copy, PartialEq, Eq, Structural, Debug)]
pub enum Builtin {
    Arith(ArithOp),
    Compare(CompareOp),
    Trig(TrigOp),
    Pi,
}

/// The context where an expression executes: operation names bound to
/// built-ins. Entries are inserted at construction and never change during
/// evaluation; a later entry for the same name overrides an earlier one.
pub struct LisperEnv {
    pub data: Vec<(String, Builtin)>,
}

/// The mapping denoted by a sequence of entries: every name is bound to the
/// last built-in inserted under it.
pub open spec fn entries_map(s: Seq<(String, Builtin)>) -> Map<Seq<char>, Builtin>
    decreases s.len(),
{
    if s.len() == 0 {
        Map::empty()
    } else {
        entries_map(s.drop_last()).insert(s.last().0@, s.last().1)
    }
}

/// Dropping a suffix without an entry for `name` does not change what `name`
/// is bound to.
proof fn lemma_entries_map_suffix(s: Seq<(String, Builtin)>, name: Seq<char>, i: int)
    requires
        0 <= i <= s.len(),
        forall|j: int| i <= j < s.len() ==> s[j].0@ != name,
    ensures
        entries_map(s).contains_key(name) == entries_map(s.take(i)).contains_key(name),
        entries_map(s).contains_key(name) ==> entries_map(s)[name] == entries_map(s.take(i))[name],
    decreases s.len() - i,
{
    if i == s.len() {
        assert(s.take(i) =~= s);
    } else {
        let s1 = s.take(s.len() - 1);
        assert(s.drop_last() =~= s1);
        assert forall|j: int| i <= j < s1.len() implies s1[j].0@ != name by {
            assert(s1[j] == s[j]);
        }
        lemma_entries_map_suffix(s1, name, i);
        assert(s1.take(i) =~= s.take(i));
        assert(s.last() == s[s.len() - 1]);
        assert(s.last().0@ != name);
        assert(entries_map(s) == entries_map(s.drop_last()).insert(s.last().0@, s.last().1));
    }
}

impl LisperEnv {
    /// The mapping this environment denotes.
    pub open spec fn as_map(&self) -> Map<Seq<char>, Builtin> {
        entries_map(self.data@)
    }

    /// Looks `name` up: the built-in bound under `name`, if any.
    pub fn lookup(&self, name: &str) -> (r: Option<Builtin>)
        ensures
            match r {
                Some(b) => self.as_map().contains_key(name@) && self.as_map()[name@] == b,
                None => !self.as_map().contains_key(name@),
            },
    {
        let mut i: usize = self.data.len();
        while i > 0
            invariant
                i <= self.data@.len(),
                forall|j: int| i <= j < self.data@.len() ==> self.data@[j].0@ != name@,
            decreases i,
        {
            i -= 1;
            let entry = &self.data[i];
            if str_eq(entry.0.as_str(), name) {
                proof {
                    lemma_entries_map_suffix(self.data@, name@, i + 1);
                    assert(self.data@.take(i + 1).drop_last() =~= self.data@.take(i as int));
                    assert(self.data@.take(i + 1).last() == self.data@[i as int]);
                }
                return Some(entry.1);
            }
        }
        proof {
            lemma_entries_map_suffix(self.data@, name@, 0);
            assert(self.data@.take(0) =~= Seq::<(String, Builtin)>::empty());
        }
        None
    }
}

/// Appends one binding, so that the denoted mapping gains exactly that
/// binding.
fn push_entry(data: &mut Vec<(String, Builtin)>, name: &str, b: Builtin)
    ensures
        entries_map(final(data)@) == entries_map(old(data)@).insert(name@, b),
{
    data.push((name.to_owned(), b));
    proof {
        assert(data@.drop_last() =~= old(data)@);
    }
}

/// The mapping of the default environment: the arithmetic operations under
/// their sign and long names, the comparators, the trigonometric operations,
/// and the constant pi.
pub open spec fn default_env_map() -> Map<Seq<char>, Builtin> {
    Map::empty().insert("+"@, Builtin::Arith(ArithOp::Add)).insert(
        "add"@,
        Builtin::Arith(ArithOp::Add),
    ).insert("-"@, Builtin::Arith(ArithOp::Sub)).insert("sub"@, Builtin::Arith(ArithOp::Sub)).insert(
        "*"@,
        Builtin::Arith(ArithOp::Mul),
    ).insert("mul"@, Builtin::Arith(ArithOp::Mul)).insert("/"@, Builtin::Arith(ArithOp::Div)).insert(
        "div"@,
        Builtin::Arith(ArithOp::Div),
    ).insert("%"@, Builtin::Arith(ArithOp::Rem)).insert("mod"@, Builtin::Arith(ArithOp::Rem)).insert(
        "<"@,
        Builtin::Compare(CompareOp::Less),
    ).insert(">"@, Builtin::Compare(CompareOp::Greater)).insert(
        "="@,
        Builtin::Compare(CompareOp::Equal),
    ).insert("=="@, Builtin::Compare(CompareOp::Equal)).insert(
        "<="@,
        Builtin::Compare(CompareOp::LessEq),
    ).insert(">="@, Builtin::Compare(CompareOp::GreaterEq)).insert(
        "sin"@,
        Builtin::Trig(TrigOp::Sin),
    ).insert("cos"@, Builtin::Trig(TrigOp::Cos)).insert("tan"@, Builtin::Trig(TrigOp::Tan)).insert(
        "pi"@,
        Builtin::Pi,
    )
}

/// Creates the default environment, binding exactly the names of
/// [`default_env_map`] to their built-ins.
pub fn create_default_env() -> (env: LisperEnv)
    ensures
        env.as_map() == default_env_map(),
{
    let mut data: Vec<(String, Builtin)> = Vec::new();
    proof {
        assert(data@ =~= Seq::<(String, Builtin)>::empty());
    }
    push_entry(&mut data, "+", Builtin::Arith(ArithOp::Add));
    push_entry(&mut data, "add", Builtin::Arith(ArithOp::Add));
    push_entry(&mut data, "-", Builtin::Arith(ArithOp::Sub));
    push_entry(&mut data, "sub", Builtin::Arith(ArithOp::Sub));
    push_entry(&mut data, "*", Builtin::Arith(ArithOp::Mul));
    push_entry(&mut data, "mul", Builtin::Arith(ArithOp::Mul));
    push_entry(&mut data, "/", Builtin::Arith(ArithOp::Div));
    push_entry(&mut data, "div", Builtin::Arith(ArithOp::Div));
    push_entry(&mut data, "%", Builtin::Arith(ArithOp::Rem));
    push_entry(&mut data, "mod", Builtin::Arith(ArithOp::Rem));
    push_entry(&mut data, "<", Builtin::Compare(CompareOp::Less));
    push_entry(&mut data, ">", Builtin::Compare(CompareOp::Greater));
    push_entry(&mut data, "=", Builtin::Compare(CompareOp::Equal));
    push_entry(&mut data, "==", Builtin::Compare(CompareOp::Equal));
    push_entry(&mut data, "<=", Builtin::Compare(CompareOp::LessEq));
    push_entry(&mut data, ">=", Builtin::Compare(CompareOp::GreaterEq));
    push_entry(&mut data, "sin", Builtin::Trig(TrigOp::Sin));
    push_entry(&mut data, "cos", Builtin::Trig(TrigOp::Cos));
    push_entry(&mut data, "tan", Builtin::Trig(TrigOp::Tan));
    push_entry(&mut data, "pi", Builtin::Pi);
    LisperEnv { data }
}

} // verus!
