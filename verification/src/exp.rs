//! The expression tree shared by the parser, the environment and the
//! evaluator, together with its mathematical model.

use vstd::prelude::*;
use vstd::string::StringExecFns;

use crate::host::NumHost;

verus! {

/// One S-expression: a closed tagged union with exactly four variants.
///
/// `Number` holds the raw bits of the host's 64-bit floating-point value; the
/// interpreter treats them as an opaque scalar and leaves their meaning to the
/// embedding host. `List` is the only composite and owns its elements.
#[derive(Debug)]
pub enum LisperExp {
    Bool(bool),
    Symbol(String),
    Number(u64),
    List(Vec<LisperExp>),
}

/// The mathematical model of a [`LisperExp`]: text becomes a sequence of
/// characters, a list becomes a sequence of models.
#[verifier::ext_equal]
pub enum ExpModel {
    Bool(bool),
    Symbol(Seq<char>),
    Number(u64),
    List(Seq<ExpModel>),
}

/// The models of a sequence of expressions, in order.
pub open spec fn models_of(items: Seq<LisperExp>) -> Seq<ExpModel>
    decreases items,
{
    if items.len() == 0 {
        Seq::empty()
    } else {
        seq![items[0]@] + models_of(items.skip(1))
    }
}

/// `models_of` maps each expression of a sequence to its model, keeping
/// length and order.
pub broadcast proof fn lemma_models_of(items: Seq<LisperExp>)
    ensures
        (#[trigger] models_of(items)).len() == items.len(),
        forall|i: int| 0 <= i < items.len() ==> #[trigger] models_of(items)[i] == items[i]@,
    decreases items.len(),
{
    if items.len() > 0 {
        lemma_models_of(items.skip(1));
        assert forall|i: int| 0 <= i < items.len() implies #[trigger] models_of(items)[i]
            == items[i]@ by {
            if i > 0 {
                assert(models_of(items) == seq![items[0]@] + models_of(items.skip(1)));
                assert(models_of(items)[i] == models_of(items.skip(1))[i - 1]);
                assert(items.skip(1)[i - 1] == items[i]);
            }
        }
    }
}

impl View for LisperExp {
    type V = ExpModel;

    open spec fn view(&self) -> ExpModel
        decreases self,
    {
        match self {
            LisperExp::Bool(b) => ExpModel::Bool(*b),
            LisperExp::Symbol(s) => ExpModel::Symbol(s@),
            LisperExp::Number(n) => ExpModel::Number(*n),
            LisperExp::List(items) => ExpModel::List(models_of(items@)),
        }
    }
}

impl DeepView for LisperExp {
    type V = ExpModel;

    open spec fn deep_view(&self) -> ExpModel {
        self@
    }
}

impl Clone for LisperExp {
    /// A structural copy, with the same model as the source value.
    fn clone(&self) -> (r: Self)
        ensures
            r@ == self@,
        decreases self,
    {
        match self {
            LisperExp::Bool(b) => LisperExp::Bool(*b),
            LisperExp::Symbol(s) => LisperExp::Symbol(s.clone()),
            LisperExp::Number(n) => LisperExp::Number(*n),
            LisperExp::List(items) => {
                let mut copied: Vec<LisperExp> = Vec::new();
                let n = items.len();
                let mut i: usize = 0;
                while i < n
                    invariant
                        i <= n,
                        n == items@.len(),
                        *self == LisperExp::List(*items),
                        copied@.len() == i as int,
                        forall|j: int| 0 <= j < i ==> copied@[j]@ == items@[j]@,
                    decreases n - i,
                {
                    let e = &items[i];
                    proof {
                        assert(*self == LisperExp::List(*items));
                        assert(decreases_to!(*self => self->List_0));
                        assert(self->List_0 == *items);
                        assert(decreases_to!(*items => items@));
                        assert(decreases_to!(items@ => items@[i as int]));
                    }
                    copied.push(e.clone());
                    i += 1;
                }
                proof {
                    broadcast use lemma_models_of;

                    assert(models_of(copied@) =~= models_of(items@));
                }
                LisperExp::List(copied)
            },
        }
    }
}

/// The text of an expression: booleans and symbols render as their natural
/// text, a number as the host renders its scalar, a list as its comma-joined
/// elements between parentheses.
pub open spec fn spec_text<H: NumHost>(host: &H, e: ExpModel) -> Seq<char>
    decreases e, 1int,
{
    match e {
        ExpModel::Bool(b) => if b {
            "true"@
        } else {
            "false"@
        },
        ExpModel::Symbol(s) => s,
        ExpModel::Number(n) => host.render_spec(n),
        ExpModel::List(items) => "("@ + spec_text_items(host, items) + ")"@,
    }
}

/// The comma-joined texts of a sequence of expressions.
pub open spec fn spec_text_items<H: NumHost>(host: &H, items: Seq<ExpModel>) -> Seq<char>
    decreases items, 0int,
{
    if items.len() == 0 {
        Seq::empty()
    } else {
        spec_text(host, items[0]) + spec_text_rest(host, items.skip(1))
    }
}

/// The texts of the elements after the first, each preceded by a comma.
pub open spec fn spec_text_rest<H: NumHost>(host: &H, items: Seq<ExpModel>) -> Seq<char>
    decreases items, 0int,
{
    if items.len() == 0 {
        Seq::empty()
    } else {
        ","@ + spec_text(host, items[0]) + spec_text_rest(host, items.skip(1))
    }
}

impl LisperExp {
    /// Renders the expression as text, exactly as [`spec_text`] states:
    /// booleans and symbols as their natural text, numbers as the host
    /// renders them, and a list as its comma-joined elements between
    /// parentheses.
    pub fn to_text<H: NumHost>(&self, host: &H) -> (r: String)
        ensures
            r@ == spec_text(host, self@),
        decreases self,
    {
        match self {
            LisperExp::Bool(b) => if *b {
                "true".to_owned()
            } else {
                "false".to_owned()
            },
            LisperExp::Symbol(s) => s.clone(),
            LisperExp::Number(n) => host.render_num(*n),
            LisperExp::List(items) => {
                let ghost m = models_of(items@);
                proof {
                    broadcast use lemma_models_of;

                }
                let mut out: String = "(".to_owned();
                let n = items.len();
                let mut i: usize = 0;
                while i < n
                    invariant
                        i <= n,
                        n == items@.len(),
                        *self == LisperExp::List(*items),
                        m == models_of(items@),
                        m.len() == n,
                        forall|j: int| 0 <= j < n ==> m[j] == items@[j]@,
                        i == 0 ==> out@ == "("@,
                        i > 0 ==> out@ + spec_text_rest(host, m.skip(i as int)) + ")"@
                            == spec_text(host, self@),
                    decreases n - i,
                {
                    let item = &items[i];
                    proof {
                        assert(decreases_to!(*self => self->List_0));
                        assert(self->List_0 == *items);
                        assert(decreases_to!(*items => items@));
                        assert(decreases_to!(items@ => items@[i as int]));
                    }
                    let item_text = item.to_text(host);
                    let ghost before = out@;
                    if i > 0 {
                        out.append(",");
                    }
                    out.append(item_text.as_str());
                    proof {
                        assert(m.skip(i as int)[0] == m[i as int]);
                        assert(m.skip(i as int).skip(1) =~= m.skip(i + 1));
                        if i == 0 {
                            assert(spec_text_items(host, m) == spec_text(host, m[0])
                                + spec_text_rest(host, m.skip(1)));
                            assert(out@ + spec_text_rest(host, m.skip(1)) + ")"@ =~= "("@ + (
                            spec_text(host, m[0]) + spec_text_rest(host, m.skip(1))) + ")"@);
                        } else {
                            assert(spec_text_rest(host, m.skip(i as int)) == ","@ + spec_text(
                                host,
                                m[i as int],
                            ) + spec_text_rest(host, m.skip(i + 1)));
                            assert(out@ + spec_text_rest(host, m.skip(i + 1)) =~= before
                                + spec_text_rest(host, m.skip(i as int)));
                            assert(out@ + spec_text_rest(host, m.skip(i + 1)) + ")"@ =~= before
                                + spec_text_rest(host, m.skip(i as int)) + ")"@);
                        }
                    }
                    i += 1;
                }
                let ghost before = out@;
                out.append(")");
                proof {
                    if n == 0 {
                        assert(spec_text_items(host, m) == Seq::<char>::empty());
                        assert(out@ =~= "("@ + spec_text_items(host, m) + ")"@);
                    } else {
                        assert(m.skip(n as int) =~= Seq::<ExpModel>::empty());
                        assert(spec_text_rest(host, m.skip(n as int)) == Seq::<char>::empty());
                        assert(out@ =~= before + spec_text_rest(host, m.skip(n as int)) + ")"@);
                    }
                }
                out
            },
        }
    }
}

/// The single error kind of the interpreter, carrying a human-readable reason.
#[derive(Debug)]
pub enum LisperErr {
    Reason(String),
}

impl LisperErr {
    /// The human-readable reason carried by the error.
    pub fn message(&self) -> (r: &str)
        ensures
            self matches LisperErr::Reason(s) && r@ == s@,
    {
        match self {
            LisperErr::Reason(s) => s.as_str(),
        }
    }
}

} // verus!
