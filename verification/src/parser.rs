//! The parser: consumes a prefix of a token sequence, builds one expression,
//! and returns the unconsumed remainder, so that a stream of top-level forms
//! can be parsed by repeated calls.
//!
//! Which tokens a form spans, where parsing fails, and which error it fails
//! with depend only on the tokens; they are captured exactly by
//! [`spec_parse`]. Whether an atom token denotes a number is the host's
//! decision (the counterpart of parsing it as a 64-bit float):
//! [`parse_token`] is pinned exactly to that answer through
//! [`spec_classify`], and [`atom_matches`] states what holds of an atom
//! whatever the answer was — which is how [`parse`]'s contract speaks of the
//! atoms inside a parsed tree.

use vstd::prelude::*;
use vstd::string::StrSliceExecFns;

use crate::exp::{models_of, spec_text, ExpModel, LisperErr, LisperExp};
use crate::exp::lemma_models_of;
use crate::host::NumHost;
use crate::tokenizer::{atom_run_len, is_atom_char, spec_tokenize};

verus! {

/// The skeleton of a parsed form: the tree structure with each atom kept as
/// its raw token text.
#[verifier::ext_equal]
pub enum Shape {
    Atom(Seq<char>),
    List(Seq<Shape>),
}

/// Whether the token is one of the two boolean literals.
pub open spec fn is_bool_tok(t: Seq<char>) -> bool {
    t == "true"@ || t == "false"@
}

/// The expression an atom token becomes, given the host's answer `parsed` to
/// reading the token as a number: a boolean literal always becomes `Bool`,
/// otherwise a recognized number becomes `Number` and anything else becomes
/// `Symbol` holding the raw token text.
pub open spec fn spec_classify(t: Seq<char>, parsed: Option<u64>) -> ExpModel {
    if t == "true"@ {
        ExpModel::Bool(true)
    } else if t == "false"@ {
        ExpModel::Bool(false)
    } else {
        match parsed {
            Some(v) => ExpModel::Number(v),
            None => ExpModel::Symbol(t),
        }
    }
}

/// What holds of an atom's classification whatever the host answered: boolean
/// literals are pinned exactly, and every other token becomes either a number
/// or a symbol carrying the raw token text.
pub open spec fn atom_matches(e: ExpModel, t: Seq<char>) -> bool {
    if is_bool_tok(t) {
        e == ExpModel::Bool(t == "true"@)
    } else {
        e is Number || e == ExpModel::Symbol(t)
    }
}

/// Whether expression `e` is a possible reading of skeleton `k`: the same
/// tree, with each atom classified as [`atom_matches`] allows.
pub open spec fn shape_matches(e: ExpModel, k: Shape) -> bool
    decreases k,
{
    match k {
        Shape::Atom(t) => atom_matches(e, t),
        Shape::List(ks) => e matches ExpModel::List(items) && items.len() == ks.len()
            && forall|i: int| 0 <= i < ks.len() ==> shape_matches(#[trigger] items[i], ks[i]),
    }
}

/// The skeleton parser: one form from the front of `toks`, with the
/// unconsumed remainder, or the text of the parse error.
pub open spec fn spec_parse(toks: Seq<Seq<char>>) -> Result<(Shape, Seq<Seq<char>>), Seq<char>>
    decreases toks.len(), 0int,
{
    if toks.len() == 0 {
        Err("Could not get token"@)
    } else if toks[0] == "("@ {
        match spec_parse_items(toks.skip(1)) {
            Ok((ks, rest)) => Ok((Shape::List(ks), rest)),
            Err(m) => Err(m),
        }
    } else if toks[0] == ")"@ {
        Err("Parsing error, found unexpected )."@)
    } else {
        Ok((Shape::Atom(toks[0]), toks.skip(1)))
    }
}

/// The elements of a parenthesized form, up to and including the closing
/// parenthesis, with the unconsumed remainder.
pub open spec fn spec_parse_items(toks: Seq<Seq<char>>) -> Result<
    (Seq<Shape>, Seq<Seq<char>>),
    Seq<char>,
>
    decreases toks.len(), 1int,
{
    if toks.len() == 0 {
        Err("Error reading token, missing )."@)
    } else if toks[0] == ")"@ {
        Ok((Seq::empty(), toks.skip(1)))
    } else {
        match spec_parse(toks) {
            Ok((k, rest)) => if rest.len() < toks.len() {
                match spec_parse_items(rest) {
                    Ok((ks, rest2)) => Ok((seq![k] + ks, rest2)),
                    Err(m) => Err(m),
                }
            } else {
                // Never reached: a parsed form always consumes at least one
                // token. The branch keeps the recursion visibly bounded.
                Err(Seq::empty())
            },
            Err(m) => Err(m),
        }
    }
}

/// Whether two string slices hold the same characters.
pub(crate) fn str_eq(a: &str, b: &str) -> (r: bool)
    ensures
        r == (a@ == b@),
{
    let n = a.unicode_len();
    let m = b.unicode_len();
    if n != m {
        return false;
    }
    let mut i: usize = 0;
    while i < n
        invariant
            i <= n,
            n == a@.len(),
            n == b@.len(),
            forall|k: int| 0 <= k < i ==> a@[k] == b@[k],
        decreases n - i,
    {
        if a.get_char(i) != b.get_char(i) {
            return false;
        }
        i += 1;
    }
    proof {
        assert(a@ =~= b@);
    }
    true
}

/// Turns one atom token into an expression, given the host's answer `parsed`
/// to reading the token as a number. The classification priority is fixed:
/// boolean literal first, then number, then symbol.
pub fn classify_token(token: &str, parsed: Option<u64>) -> (r: LisperExp)
    ensures
        r@ == spec_classify(token@, parsed),
{
    if str_eq(token, "true") {
        LisperExp::Bool(true)
    } else if str_eq(token, "false") {
        LisperExp::Bool(false)
    } else {
        match parsed {
            Some(v) => LisperExp::Number(v),
            None => LisperExp::Symbol(token.to_owned()),
        }
    }
}

/// Parses an individual atom token: asks the host whether it denotes a
/// number, then classifies with the fixed priority boolean, number, symbol.
pub fn parse_token<H: NumHost>(token: &str, host: &H) -> (r: LisperExp)
    ensures
        r@ == spec_classify(token@, host.parse_spec(token@)),
        atom_matches(r@, token@),
{
    let parsed = host.parse_num(token);
    classify_token(token, parsed)
}

/// Parses one expression from the front of `tokens` and returns it together
/// with the unconsumed remainder. The tokens consumed, the remainder, and
/// every failure are exactly those of [`spec_parse`]; the expression is a
/// reading of the parsed skeleton as [`shape_matches`] states.
pub fn parse<'a, H: NumHost>(tokens: &'a [String], host: &H) -> (r: Result<
    (LisperExp, &'a [String]),
    LisperErr,
>)
    ensures
        r is Ok ==> spec_parse(tokens.deep_view()) is Ok,
        r is Ok ==> shape_matches(r->Ok_0.0@, spec_parse(tokens.deep_view())->Ok_0.0),
        r is Ok ==> r->Ok_0.1.deep_view() == spec_parse(tokens.deep_view())->Ok_0.1,
        r is Ok ==> r->Ok_0.1@.len() < tokens@.len(),
        r is Err ==> spec_parse(tokens.deep_view()) is Err,
        r is Err ==> (r->Err_0 matches LisperErr::Reason(s) && s@ == spec_parse(
            tokens.deep_view(),
        )->Err_0),
    decreases tokens@.len(),
{
    if tokens.len() == 0 {
        return Err(LisperErr::Reason("Could not get token".to_owned()));
    }
    let first: &String = &tokens[0];
    let rest: &[String] = &tokens[1..tokens.len()];
    proof {
        assert(rest.deep_view() =~= tokens.deep_view().skip(1));
    }
    if str_eq(first.as_str(), "(") {
        let mut items: Vec<LisperExp> = Vec::new();
        let ghost mut shapes: Seq<Shape> = Seq::empty();
        let mut more: &[String] = rest;
        proof {
            if let Ok((ks, r2)) = spec_parse_items(rest.deep_view()) {
                assert(Seq::<Shape>::empty() + ks =~= ks);
            }
        }
        loop
            invariant
                tokens.deep_view().len() > 0,
                tokens.deep_view()[0] == "("@,
                rest.deep_view() == tokens.deep_view().skip(1),
                more@.len() <= rest@.len(),
                rest@.len() == tokens@.len() - 1,
                items@.len() == shapes.len(),
                forall|j: int|
                    0 <= j < shapes.len() ==> shape_matches(#[trigger] items@[j]@, shapes[j]),
                (match spec_parse_items(more.deep_view()) {
                    Ok((ks, r2)) => spec_parse_items(rest.deep_view()) == Ok::<
                        (Seq<Shape>, Seq<Seq<char>>),
                        Seq<char>,
                    >((shapes + ks, r2)),
                    Err(m) => spec_parse_items(rest.deep_view()) == Err::<
                        (Seq<Shape>, Seq<Seq<char>>),
                        Seq<char>,
                    >(m),
                }),
            decreases more@.len(),
        {
            if more.len() == 0 {
                proof {
                    assert(more.deep_view() =~= Seq::<Seq<char>>::empty());
                }
                return Err(LisperErr::Reason("Error reading token, missing ).".to_owned()));
            }
            let next: &String = &more[0];
            if str_eq(next.as_str(), ")") {
                let after: &[String] = &more[1..more.len()];
                proof {
                    assert(after.deep_view() =~= more.deep_view().skip(1));
                    assert(shapes + Seq::<Shape>::empty() =~= shapes);
                    broadcast use lemma_models_of;

                    assert(models_of(items@).len() == shapes.len());
                }
                return Ok((LisperExp::List(items), after));
            }
            match parse(more, host) {
                Ok(parsed_pair) => {
                    let (exp, new_more): (LisperExp, &[String]) = parsed_pair;
                    proof {
                        match spec_parse(more.deep_view()) {
                            Ok((k, srest)) => {
                                assert(new_more.deep_view().len() == new_more@.len());
                                assert(srest.len() < more.deep_view().len());
                                if let Ok((ks, r2)) = spec_parse_items(srest) {
                                    assert((shapes + seq![k]) + ks =~= shapes + (seq![k] + ks));
                                }
                                shapes = shapes + seq![k];
                            },
                            Err(_) => {
                                assert(false);
                            },
                        }
                    }
                    items.push(exp);
                    more = new_more;
                },
                Err(e) => {
                    return Err(e);
                },
            }
        }
    } else if str_eq(first.as_str(), ")") {
        return Err(LisperErr::Reason("Parsing error, found unexpected ).".to_owned()));
    } else {
        let e = parse_token(first.as_str(), host);
        return Ok((e, rest));
    }
}

/// Law: an atom survives the render-tokenize-reparse round trip. For any
/// boolean, unconditionally; for a number, provided the host reads its own
/// rendering back to the same scalar, renders it non-empty without
/// whitespace or parentheses, and does not render it as a boolean literal.
/// Rendering the atom gives one token, tokenizing that text yields exactly
/// that token, parsing it consumes everything, and classifying it gives the
/// same atom back.
pub proof fn lemma_atom_round_trip<H: NumHost>(host: &H, e: ExpModel)
    requires
        e is Bool || e is Number,
        e matches ExpModel::Number(n) ==> host.parse_spec(host.render_spec(n)) == Some(n),
        e matches ExpModel::Number(n) ==> host.render_spec(n).len() > 0,
        e matches ExpModel::Number(n) ==> (forall|i: int|
            0 <= i < host.render_spec(n).len() ==> is_atom_char(host.render_spec(n)[i])),
        e matches ExpModel::Number(n) ==> !is_bool_tok(host.render_spec(n)),
    ensures
        spec_tokenize(spec_text(host, e)) == seq![spec_text(host, e)],
        spec_parse(seq![spec_text(host, e)]) == Ok::<(Shape, Seq<Seq<char>>), Seq<char>>(
            (Shape::Atom(spec_text(host, e)), Seq::empty()),
        ),
        spec_classify(spec_text(host, e), host.parse_spec(spec_text(host, e))) == e,
{
    reveal_strlit("true");
    reveal_strlit("false");
    reveal_strlit("(");
    reveal_strlit(")");
    let t = spec_text(host, e);
    assert forall|i: int| 0 <= i < t.len() implies is_atom_char(t[i]) by {
        if e is Bool {
            assert(t[i] == "true"@[i] || t[i] == "false"@[i]);
        }
    }
    assert(atom_run_len(t) == t.len()) by {
        lemma_full_atom_run(t);
    }
    assert(t.take(t.len() as int) =~= t);
    assert(t.skip(t.len() as int) =~= Seq::<char>::empty());
    assert(spec_tokenize(Seq::<char>::empty()) == Seq::<Seq<char>>::empty());
    assert(seq![t] + Seq::<Seq<char>>::empty() =~= seq![t]);
    assert(spec_tokenize(t) =~= seq![t]);
    assert(t != "("@ && t != ")"@) by {
        assert(t.len() > 0);
        assert(is_atom_char(t[0]));
        assert(!is_atom_char("("@[0]) && !is_atom_char(")"@[0]));
    }
    assert(seq![t][0] == t);
    assert(seq![t].skip(1) =~= Seq::<Seq<char>>::empty());
    assert("true"@ != "false"@) by {
        assert("true"@.len() != "false"@.len());
    }
}

/// A sequence made of atom characters only is one whole atom run.
proof fn lemma_full_atom_run(s: Seq<char>)
    requires
        forall|i: int| 0 <= i < s.len() ==> is_atom_char(s[i]),
    ensures
        atom_run_len(s) == s.len(),
    decreases s.len(),
{
    if s.len() > 0 {
        lemma_full_atom_run(s.skip(1));
    }
}

} // verus!
