//! The tokenizer: splits raw text into parenthesis tokens and atom tokens.
//!
//! A parenthesis always becomes a token of its own; every other maximal run
//! of non-whitespace, non-parenthesis characters becomes one atom token;
//! whitespace only separates and is dropped.

use vstd::prelude::*;
use vstd::string::StrSliceExecFns;

verus! {

/// Whether `c` only separates tokens. These are the ASCII whitespace
/// characters — space, tab, line feed, vertical tab, form feed and carriage
/// return — and no others: a character outside this set that is not a
/// parenthesis, Unicode whitespace included, stands inside an atom.
pub open spec fn is_space_char(c: char) -> bool {
    c == ' ' || c == '\t' || c == '\n' || c == '\u{b}' || c == '\u{c}' || c == '\r'
}

/// Whether `c` can stand inside an atom token: anything but whitespace and
/// parentheses.
pub open spec fn is_atom_char(c: char) -> bool {
    !is_space_char(c) && c != '(' && c != ')'
}

/// The length of the longest prefix of `s` made of atom characters.
pub open spec fn atom_run_len(s: Seq<char>) -> nat
    decreases s.len(),
{
    if s.len() == 0 {
        0
    } else if is_atom_char(s[0]) {
        1 + atom_run_len(s.skip(1))
    } else {
        0
    }
}

/// The token sequence of `s`: each parenthesis alone, each maximal run of
/// atom characters as one token, whitespace dropped.
pub open spec fn spec_tokenize(s: Seq<char>) -> Seq<Seq<char>>
    decreases s.len(),
    via spec_tokenize_decreases
{
    if s.len() == 0 {
        Seq::empty()
    } else if is_space_char(s[0]) {
        spec_tokenize(s.skip(1))
    } else if s[0] == '(' || s[0] == ')' {
        seq![seq![s[0]]] + spec_tokenize(s.skip(1))
    } else {
        seq![s.take(atom_run_len(s) as int)] + spec_tokenize(s.skip(atom_run_len(s) as int))
    }
}

#[via_fn]
proof fn spec_tokenize_decreases(s: Seq<char>) {
    if s.len() > 0 && !is_space_char(s[0]) && s[0] != '(' && s[0] != ')' {
        lemma_atom_run_bounds(s);
    }
}

/// A run of exactly `n` atom characters starts at the head of `s`.
proof fn lemma_atom_run_len(s: Seq<char>, n: nat)
    requires
        n <= s.len(),
        forall|i: int| 0 <= i < n ==> is_atom_char(s[i]),
        n == s.len() || !is_atom_char(s[n as int]),
    ensures
        atom_run_len(s) == n,
    decreases n,
{
    if n == 0 {
    } else {
        assert(is_atom_char(s[0]));
        lemma_atom_run_len(s.skip(1), (n - 1) as nat);
    }
}

/// `s` with its whitespace characters removed, in order.
pub open spec fn drop_spaces(s: Seq<char>) -> Seq<char>
    decreases s.len(),
{
    if s.len() == 0 {
        Seq::empty()
    } else if is_space_char(s[0]) {
        drop_spaces(s.skip(1))
    } else {
        seq![s[0]] + drop_spaces(s.skip(1))
    }
}

/// The concatenation of a sequence of token texts.
pub open spec fn concat_all(ts: Seq<Seq<char>>) -> Seq<char>
    decreases ts.len(),
{
    if ts.len() == 0 {
        Seq::empty()
    } else {
        ts[0] + concat_all(ts.skip(1))
    }
}

/// The form every token has: non-empty, and either a lone parenthesis or a
/// run of atom characters.
pub open spec fn token_shape(t: Seq<char>) -> bool {
    t.len() > 0 && (t =~= seq!['('] || t =~= seq![')'] || forall|i: int|
        0 <= i < t.len() ==> is_atom_char(t[i]))
}

/// Dropping the first `n` characters of `s`, none of which is a space,
/// commutes with dropping spaces.
proof fn lemma_drop_spaces_run(s: Seq<char>, n: nat)
    requires
        n <= s.len(),
        forall|i: int| 0 <= i < n ==> !is_space_char(s[i]),
    ensures
        drop_spaces(s) =~= s.take(n as int) + drop_spaces(s.skip(n as int)),
    decreases n,
{
    if n == 0 {
        assert(s.skip(0) =~= s);
    } else {
        lemma_drop_spaces_run(s.skip(1), (n - 1) as nat);
        assert(s.skip(1).skip(n - 1) =~= s.skip(n as int));
        assert(seq![s[0]] + (s.skip(1).take(n - 1) + drop_spaces(s.skip(n as int))) =~= s.take(
            n as int,
        ) + drop_spaces(s.skip(n as int)));
    }
}

/// Law: tokenization never drops a non-whitespace character — the tokens
/// concatenate back to the input with only its whitespace removed — and every
/// token is non-empty and either a lone parenthesis or a run of atom
/// characters.
pub proof fn lemma_tokenize_keeps_text(s: Seq<char>)
    ensures
        concat_all(spec_tokenize(s)) =~= drop_spaces(s),
        forall|k: int| 0 <= k < spec_tokenize(s).len() ==> token_shape(#[trigger] spec_tokenize(s)[k]),
    decreases s.len(),
{
    if s.len() == 0 {
    } else if is_space_char(s[0]) {
        lemma_tokenize_keeps_text(s.skip(1));
    } else if s[0] == '(' || s[0] == ')' {
        lemma_tokenize_keeps_text(s.skip(1));
        let rest = spec_tokenize(s.skip(1));
        assert((seq![seq![s[0]]] + rest).skip(1) =~= rest);
        assert(concat_all(seq![seq![s[0]]] + rest) =~= seq![s[0]] + concat_all(rest));
        lemma_drop_spaces_run(s, 1);
        assert(s.take(1) =~= seq![s[0]]);
        assert(s.skip(0) =~= s);
    } else {
        let n = atom_run_len(s);
        lemma_atom_run_bounds(s);
        lemma_tokenize_keeps_text(s.skip(n as int));
        let rest = spec_tokenize(s.skip(n as int));
        assert((seq![s.take(n as int)] + rest).skip(1) =~= rest);
        assert(concat_all(seq![s.take(n as int)] + rest) =~= s.take(n as int) + concat_all(rest));
        lemma_drop_spaces_run(s, n);
        assert(token_shape(s.take(n as int)));
    }
}

/// The atom run at the head of `s` is non-empty when `s` starts with an atom
/// character, fits inside `s`, and consists of atom characters.
proof fn lemma_atom_run_bounds(s: Seq<char>)
    requires
        s.len() > 0,
        is_atom_char(s[0]),
    ensures
        1 <= atom_run_len(s) <= s.len(),
        forall|i: int| 0 <= i < atom_run_len(s) ==> is_atom_char(s[i]),
    decreases s.len(),
{
    if s.len() > 1 && is_atom_char(s[1]) {
        lemma_atom_run_bounds(s.skip(1));
        assert(forall|i: int|
            1 <= i < atom_run_len(s) ==> is_atom_char(#[trigger] s[i])) by {
            assert(forall|i: int|
                0 <= i < atom_run_len(s.skip(1)) ==> is_atom_char(#[trigger] s.skip(1)[i]));
            assert(forall|i: int| 1 <= i < atom_run_len(s) ==> s[i] == s.skip(1)[i - 1]);
        }
    } else {
        assert(atom_run_len(s.skip(1)) == 0);
    }
}

/// Whether the character at position `i` of `s` can stand inside an atom.
fn atom_char_at(s: &str, i: usize) -> (r: bool)
    requires
        i < s@.len(),
    ensures
        r == is_atom_char(s@[i as int]),
{
    let c = s.get_char(i);
    c != ' ' && c != '\t' && c != '\n' && c != '\u{b}' && c != '\u{c}' && c != '\r' && c != '('
        && c != ')'
}

/// Breaks an input string into tokens: each parenthesis becomes a token of
/// its own, every other maximal run of non-whitespace characters becomes one
/// atom token, and whitespace is dropped.
pub fn tokenize(expr: String) -> (tokens: Vec<String>)
    ensures
        tokens.deep_view() == spec_tokenize(expr@),
{
    let s: &str = expr.as_str();
    let n: usize = s.unicode_len();
    let mut tokens: Vec<String> = Vec::new();
    let mut i: usize = 0;
    proof {
        assert(s@.skip(0) =~= s@);
        assert(tokens.deep_view() =~= Seq::<Seq<char>>::empty());
        assert(Seq::<Seq<char>>::empty() + spec_tokenize(s@) =~= spec_tokenize(s@));
    }
    while i < n
        invariant
            i <= n,
            n == s@.len(),
            spec_tokenize(s@) =~= tokens.deep_view() + spec_tokenize(s@.skip(i as int)),
        decreases n - i,
    {
        let c = s.get_char(i);
        if c == ' ' || c == '\t' || c == '\n' || c == '\u{b}' || c == '\u{c}' || c == '\r' {
            proof {
                assert(s@.skip(i as int).skip(1) =~= s@.skip(i + 1));
            }
            i += 1;
        } else if c == '(' || c == ')' {
            let t: String = s.substring_char(i, i + 1).to_owned();
            proof {
                assert(t@ =~= seq![s@.skip(i as int)[0]]);
                assert(s@.skip(i as int).skip(1) =~= s@.skip(i + 1));
                assert((tokens.deep_view() + spec_tokenize(s@.skip(i as int))).drop_last()
                    =~= tokens.deep_view() + spec_tokenize(s@.skip(i as int)).drop_last());
            }
            let ghost before = tokens.deep_view();
            tokens.push(t);
            proof {
                assert(tokens.deep_view() =~= before + seq![t@]);
                assert(before + (seq![t@] + spec_tokenize(s@.skip(i + 1))) =~= (before + seq![t@])
                    + spec_tokenize(s@.skip(i + 1)));
            }
            i += 1;
        } else {
            let mut j: usize = i + 1;
            while j < n && atom_char_at(s, j)
                invariant
                    i < j <= n,
                    n == s@.len(),
                    forall|k: int| i < k < j ==> is_atom_char(s@[k]),
                decreases n - j,
            {
                j += 1;
            }
            proof {
                assert(is_atom_char(s@[i as int]));
                assert(forall|k: int| 0 <= k < j - i ==> is_atom_char(s@.skip(i as int)[k]));
                assert(j == n || !is_atom_char(s@.skip(i as int)[j - i]));
                lemma_atom_run_len(s@.skip(i as int), (j - i) as nat);
            }
            let t: String = s.substring_char(i, j).to_owned();
            proof {
                assert(t@ =~= s@.skip(i as int).take(j - i));
                assert(s@.skip(i as int).skip(j - i) =~= s@.skip(j as int));
            }
            let ghost before = tokens.deep_view();
            tokens.push(t);
            proof {
                assert(tokens.deep_view() =~= before + seq![t@]);
                assert(before + (seq![t@] + spec_tokenize(s@.skip(j as int))) =~= (before
                    + seq![t@]) + spec_tokenize(s@.skip(j as int)));
            }
            i = j;
        }
    }
    proof {
        assert(s@.skip(n as int) =~= Seq::<char>::empty());
        assert(tokens.deep_view() + Seq::<Seq<char>>::empty() =~= tokens.deep_view());
        assert(tokens.deep_view() =~= spec_tokenize(expr@));
    }
    tokens
}

} // verus!
