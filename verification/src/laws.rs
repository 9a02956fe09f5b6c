//! Laws of the tokenizer, proved from its specification: scanning fails
//! exactly on inputs holding an unrecognized character, and whitespace only
//! separates tokens, so extra whitespace never changes the result.

use vstd::prelude::*;
use crate::token::SpecToken;
use crate::tokenizer::{
    is_space_char, is_handled_char, run_end, ident_cont_pred, digit_pred, spec_next_token,
    spec_tokenize_from, spec_tokenize, not_whitespace_pred,
};

verus! {

/// A run ends at or after its start, within the text.
pub proof fn lemma_run_end_bounds(s: Seq<char>, i: int, pred: spec_fn(char) -> bool)
    requires
        0 <= i <= s.len(),
    ensures
        i <= run_end(s, i, pred) <= s.len(),
    decreases s.len() - i,
{
    if i < s.len() && pred(s[i]) {
        lemma_run_end_bounds(s, i + 1, pred);
    }
}

/// Every character of a run satisfies its predicate, and the character just
/// past the run (if any) does not.
pub proof fn lemma_run_end_chars(s: Seq<char>, i: int, pred: spec_fn(char) -> bool)
    requires
        0 <= i <= s.len(),
    ensures
        forall|k: int| i <= k < run_end(s, i, pred) ==> pred(s[k]),
        run_end(s, i, pred) < s.len() ==> !pred(s[run_end(s, i, pred)]),
    decreases s.len() - i,
{
    if i < s.len() && pred(s[i]) {
        lemma_run_end_chars(s, i + 1, pred);
    }
}

/// A scanning step that yields a token advances, stays within the text, and
/// consumes only recognized characters; one that yields nothing stands at the
/// end of the text.
pub proof fn lemma_next_token_range(s: Seq<char>, i: int)
    requires
        0 <= i <= s.len(),
    ensures
        spec_next_token(s, i) matches Ok(Some((t, j))) ==> i < j <= s.len() && (forall|k: int|
            i <= k < j ==> is_handled_char(s[k])),
        spec_next_token(s, i) matches Ok(None) ==> i == s.len(),
{
    if i < s.len() {
        let c = s[i];
        if is_space_char(c) {
        } else if crate::tokenizer::is_ident_start_char(c) {
            lemma_run_end_bounds(s, i + 1, ident_cont_pred());
            lemma_run_end_chars(s, i + 1, ident_cont_pred());
            let j = run_end(s, i + 1, ident_cont_pred());
            assert forall|k: int| i <= k < j implies is_handled_char(s[k]) by {
                if k > i {
                    assert(ident_cont_pred()(s[k]));
                }
            }
        } else if crate::tokenizer::is_digit_char(c) {
            lemma_run_end_bounds(s, i + 1, digit_pred());
            lemma_run_end_chars(s, i + 1, digit_pred());
            let j = run_end(s, i + 1, digit_pred());
            assert forall|k: int| i <= k < j implies is_handled_char(s[k]) by {
                if k > i {
                    assert(digit_pred()(s[k]));
                }
            }
        }
    }
}

/// Tokenizing from position `i` succeeds exactly when every character from
/// `i` to the end of the text is recognized.
pub proof fn lemma_tokenize_from_ok_iff_handled(s: Seq<char>, i: int)
    requires
        0 <= i <= s.len(),
    ensures
        (spec_tokenize_from(s, i) is Ok) <==> (forall|k: int|
            i <= k < s.len() ==> is_handled_char(s[k])),
    decreases s.len() - i,
{
    lemma_next_token_range(s, i);
    match spec_next_token(s, i) {
        Err(c) => {
            assert(!is_handled_char(s[i]));
        },
        Ok(None) => {},
        Ok(Some((t, j))) => {
            lemma_tokenize_from_ok_iff_handled(s, j);
        },
    }
}

/// Unrecognized characters, and nothing else, make the tokenizer fail: the
/// token sequence of a text exists exactly when every character of the text
/// is one the tokenizer recognizes.
pub proof fn lemma_tokenize_ok_iff_handled(s: Seq<char>)
    ensures
        (spec_tokenize(s) is Ok) <==> (forall|k: int| 0 <= k < s.len() ==> is_handled_char(s[k])),
{
    lemma_tokenize_from_ok_iff_handled(s, 0);
}

/// A run confined to `u` is unchanged by appending text whose first character
/// fails the predicate.
proof fn lemma_run_end_append(u: Seq<char>, v: Seq<char>, i: int, pred: spec_fn(char) -> bool)
    requires
        0 <= i <= u.len(),
        v.len() > 0 ==> !pred(v[0]),
    ensures
        run_end(u + v, i, pred) == run_end(u, i, pred),
    decreases u.len() - i,
{
    if v.len() == 0 {
        assert(u + v =~= u);
    } else if i < u.len() {
        assert((u + v)[i] == u[i]);
        if pred(u[i]) {
            lemma_run_end_append(u, v, i + 1, pred);
        }
    } else {
        assert((u + v)[i] == v[0]);
    }
}

/// A scanning step inside `u` is unchanged by appending text that starts with
/// whitespace (or appending nothing): no token ever absorbs a whitespace
/// character.
proof fn lemma_next_token_append(u: Seq<char>, v: Seq<char>, i: int)
    requires
        0 <= i < u.len(),
        v.len() > 0 ==> is_space_char(v[0]),
    ensures
        spec_next_token(u + v, i) == spec_next_token(u, i),
{
    let s = u + v;
    let c = u[i];
    assert(s[i] == c);
    if crate::tokenizer::is_ident_start_char(c) {
        lemma_run_end_append(u, v, i + 1, ident_cont_pred());
        lemma_run_end_bounds(u, i + 1, ident_cont_pred());
        let j = run_end(u, i + 1, ident_cont_pred());
        assert(s.subrange(i, j) =~= u.subrange(i, j));
    } else if crate::tokenizer::is_digit_char(c) {
        lemma_run_end_append(u, v, i + 1, digit_pred());
        lemma_run_end_bounds(u, i + 1, digit_pred());
        let j = run_end(u, i + 1, digit_pred());
        assert(s.subrange(i, j) =~= u.subrange(i, j));
    } else if c == '<' || c == '>' {
        if i + 1 < u.len() {
            assert(s[i + 1] == u[i + 1]);
        } else if v.len() > 0 {
            assert(s[i + 1] == v[0]);
        }
    }
}

/// A run in appended text is the corresponding run of that text, shifted.
proof fn lemma_run_end_shift(u: Seq<char>, v: Seq<char>, k: int, pred: spec_fn(char) -> bool)
    requires
        0 <= k <= v.len(),
    ensures
        run_end(u + v, u.len() + k, pred) == u.len() + run_end(v, k, pred),
    decreases v.len() - k,
{
    if k < v.len() {
        assert((u + v)[u.len() + k] == v[k]);
        if pred(v[k]) {
            lemma_run_end_shift(u, v, k + 1, pred);
        }
    }
}

/// A scanning step in appended text is the corresponding step of that text,
/// with its position shifted.
proof fn lemma_next_token_shift(u: Seq<char>, v: Seq<char>, k: int)
    requires
        0 <= k <= v.len(),
    ensures
        match spec_next_token(v, k) {
            Ok(None) => spec_next_token(u + v, u.len() + k) == Ok::<Option<(SpecToken, int)>, char>(
                None,
            ),
            Ok(Some((t, j))) => spec_next_token(u + v, u.len() + k) == Ok::<
                Option<(SpecToken, int)>,
                char,
            >(Some((t, u.len() + j))),
            Err(c) => spec_next_token(u + v, u.len() + k) == Err::<Option<(SpecToken, int)>, char>(
                c,
            ),
        },
{
    let s = u + v;
    let l = u.len() as int;
    if k < v.len() {
        let c = v[k];
        assert(s[l + k] == c);
        if crate::tokenizer::is_ident_start_char(c) {
            lemma_run_end_shift(u, v, k + 1, ident_cont_pred());
            lemma_run_end_bounds(v, k + 1, ident_cont_pred());
            let j = run_end(v, k + 1, ident_cont_pred());
            assert(s.subrange(l + k, l + j) =~= v.subrange(k, j));
        } else if crate::tokenizer::is_digit_char(c) {
            lemma_run_end_shift(u, v, k + 1, digit_pred());
            lemma_run_end_bounds(v, k + 1, digit_pred());
            let j = run_end(v, k + 1, digit_pred());
            assert(s.subrange(l + k, l + j) =~= v.subrange(k, j));
        } else if c == '<' || c == '>' {
            if k + 1 < v.len() {
                assert(s[l + k + 1] == v[k + 1]);
            }
        }
    }
}

/// The raw token stream of appended text, read from a position inside the
/// appended part, is that part's own raw token stream.
proof fn lemma_tokenize_from_shift(u: Seq<char>, v: Seq<char>, k: int)
    requires
        0 <= k <= v.len(),
    ensures
        spec_tokenize_from(u + v, u.len() + k) == spec_tokenize_from(v, k),
    decreases v.len() - k,
{
    lemma_next_token_shift(u, v, k);
    lemma_next_token_range(v, k);
    match spec_next_token(v, k) {
        Err(c) => {},
        Ok(None) => {},
        Ok(Some((t, j))) => {
            lemma_tokenize_from_shift(u, v, j);
        },
    }
}

/// Scanning text of the shape `u` + whitespace + `v` scans `u`, the one
/// whitespace character, and `v`, each on its own: the whitespace is a hard
/// token boundary.
proof fn lemma_tokenize_from_split(u: Seq<char>, w: char, v: Seq<char>, i: int)
    requires
        0 <= i <= u.len(),
        is_space_char(w),
    ensures
        spec_tokenize_from(u + seq![w] + v, i) == match spec_tokenize_from(u, i) {
            Err(c) => Err::<Seq<SpecToken>, char>(c),
            Ok(ts) => match spec_tokenize_from(v, 0) {
                Err(c) => Err::<Seq<SpecToken>, char>(c),
                Ok(vs) => Ok(ts + seq![SpecToken::Whitespace] + vs),
            },
        },
    decreases u.len() - i,
{
    let s = u + seq![w] + v;
    let l = u.len() as int;
    if i == u.len() {
        assert(s[i] == w);
        assert(spec_next_token(s, i) == Ok::<Option<(SpecToken, int)>, char>(
            Some((SpecToken::Whitespace, i + 1)),
        ));
        lemma_tokenize_from_shift(u + seq![w], v, 0);
        assert(spec_tokenize_from(s, i + 1) == spec_tokenize_from(v, 0));
        assert(spec_tokenize_from(u, i) == Ok::<Seq<SpecToken>, char>(Seq::empty()));
        match spec_tokenize_from(v, 0) {
            Err(c) => {},
            Ok(vs) => {
                assert(Seq::<SpecToken>::empty() + seq![SpecToken::Whitespace] + vs =~= seq![
                    SpecToken::Whitespace,
                ] + vs);
            },
        }
    } else {
        assert(u + seq![w] + v =~= u + (seq![w] + v));
        lemma_next_token_append(u, seq![w] + v, i);
        assert((seq![w] + v)[0] == w);
        lemma_next_token_range(u, i);
        match spec_next_token(u, i) {
            Err(c) => {},
            Ok(None) => {
                assert(false);
            },
            Ok(Some((t, j))) => {
                lemma_tokenize_from_split(u, w, v, j);
                match spec_tokenize_from(u, j) {
                    Err(c) => {},
                    Ok(ts) => {
                        match spec_tokenize_from(v, 0) {
                            Err(c) => {},
                            Ok(vs) => {
                                assert(seq![t] + (ts + seq![SpecToken::Whitespace] + vs) =~= (seq![
                                    t,
                                ] + ts) + seq![SpecToken::Whitespace] + vs);
                            },
                        }
                    },
                }
            },
        }
    }
}

/// Whitespace only separates: the token sequence of `u` + one whitespace
/// character + `v` is the token sequence of `u` followed by that of `v`, and
/// the first unrecognized character of either part fails it.
pub proof fn lemma_whitespace_separates(u: Seq<char>, w: char, v: Seq<char>)
    requires
        is_space_char(w),
    ensures
        spec_tokenize(u + seq![w] + v) == match spec_tokenize(u) {
            Err(c) => Err::<Seq<SpecToken>, char>(c),
            Ok(ts) => match spec_tokenize(v) {
                Err(c) => Err::<Seq<SpecToken>, char>(c),
                Ok(vs) => Ok(ts + vs),
            },
        },
{
    broadcast use vstd::seq_lib::group_filter_ensures;

    lemma_tokenize_from_split(u, w, v, 0);
    match spec_tokenize_from(u, 0) {
        Err(c) => {},
        Ok(ts) => {
            match spec_tokenize_from(v, 0) {
                Err(c) => {},
                Ok(vs) => {
                    Seq::filter_distributes_over_add(
                        ts + seq![SpecToken::Whitespace],
                        vs,
                        not_whitespace_pred(),
                    );
                    Seq::filter_distributes_over_add(
                        ts,
                        seq![SpecToken::Whitespace],
                        not_whitespace_pred(),
                    );
                    reveal_with_fuel(Seq::filter, 2);
                    assert(seq![SpecToken::Whitespace].filter(not_whitespace_pred())
                        =~= Seq::<SpecToken>::empty());
                    assert(ts.filter(not_whitespace_pred()) + Seq::<SpecToken>::empty() =~= ts.filter(
                        not_whitespace_pred(),
                    ));
                },
            }
        },
    }
}

/// Extra whitespace is invisible: doubling a whitespace character anywhere in
/// the text leaves the token sequence (or the failure) unchanged.
pub proof fn lemma_extra_whitespace(u: Seq<char>, w1: char, w2: char, v: Seq<char>)
    requires
        is_space_char(w1),
        is_space_char(w2),
    ensures
        spec_tokenize(u + seq![w1, w2] + v) == spec_tokenize(u + seq![w1] + v),
{
    assert(u + seq![w1, w2] + v =~= u + seq![w1] + (seq![w2] + v));
    lemma_whitespace_separates(u, w1, seq![w2] + v);
    lemma_whitespace_separates(u, w1, v);
    assert(seq![w2] + v =~= Seq::<char>::empty() + seq![w2] + v);
    lemma_whitespace_separates(Seq::empty(), w2, v);
    assert(spec_tokenize_from(Seq::<char>::empty(), 0) == Ok::<Seq<SpecToken>, char>(Seq::empty()));
    reveal_with_fuel(Seq::filter, 1);
    assert(Seq::<SpecToken>::empty().filter(not_whitespace_pred()) =~= Seq::<SpecToken>::empty());
    match spec_tokenize(v) {
        Err(c) => {},
        Ok(vs) => {
            assert(Seq::<SpecToken>::empty() + vs =~= vs);
        },
    }
}

/// Whitespace tokens are transient: none survives into the token sequence
/// the tokenizer returns, so none ever reaches the parser.
pub proof fn lemma_no_whitespace_token_returned(s: Seq<char>)
    ensures
        spec_tokenize(s) matches Ok(ts) ==> forall|k: int|
            0 <= k < ts.len() ==> !((#[trigger] ts[k]) is Whitespace),
{
    match spec_tokenize_from(s, 0) {
        Err(c) => {},
        Ok(raw) => {
            assert forall|k: int|
                0 <= k < raw.filter(not_whitespace_pred()).len() implies !((#[trigger] raw.filter(
                not_whitespace_pred(),
            )[k]) is Whitespace) by {
                raw.lemma_filter_pred(not_whitespace_pred(), k);
            }
        },
    }
}

/// Leading whitespace is invisible to the tokenizer.
pub proof fn lemma_leading_whitespace(w: char, v: Seq<char>)
    requires
        is_space_char(w),
    ensures
        spec_tokenize(seq![w] + v) == spec_tokenize(v),
{
    assert(seq![w] + v =~= Seq::<char>::empty() + seq![w] + v);
    lemma_whitespace_separates(Seq::empty(), w, v);
    assert(spec_tokenize_from(Seq::<char>::empty(), 0) == Ok::<Seq<SpecToken>, char>(Seq::empty()));
    reveal_with_fuel(Seq::filter, 1);
    assert(Seq::<SpecToken>::empty().filter(not_whitespace_pred()) =~= Seq::<SpecToken>::empty());
    match spec_tokenize(v) {
        Err(c) => {},
        Ok(vs) => {
            assert(Seq::<SpecToken>::empty() + vs =~= vs);
        },
    }
}

/// Trailing whitespace is invisible to the tokenizer.
pub proof fn lemma_trailing_whitespace(u: Seq<char>, w: char)
    requires
        is_space_char(w),
    ensures
        spec_tokenize(u + seq![w]) == spec_tokenize(u),
{
    assert(u + seq![w] =~= u + seq![w] + Seq::<char>::empty());
    lemma_whitespace_separates(u, w, Seq::empty());
    assert(spec_tokenize_from(Seq::<char>::empty(), 0) == Ok::<Seq<SpecToken>, char>(Seq::empty()));
    reveal_with_fuel(Seq::filter, 1);
    assert(Seq::<SpecToken>::empty().filter(not_whitespace_pred()) =~= Seq::<SpecToken>::empty());
    match spec_tokenize(u) {
        Err(c) => {},
        Ok(ts) => {
            assert(ts + Seq::<SpecToken>::empty() =~= ts);
        },
    }
}

} // verus!
