//! Tokenization: splitting a SKU string into its `;`-delimited tokens, and
//! joining tokens back. Splitting preserves empty substrings; an empty
//! input yields no tokens at all.

use vstd::prelude::*;
use vstd::string::StrSliceExecFns;

verus! {

/// Splits a nonempty-or-empty string into the `;`-delimited pieces; the
/// result always holds at least one piece (an empty input yields one empty
/// piece). [`tokenize_spec`] maps the empty input to no tokens.
pub open spec fn split_semi(s: Seq<char>) -> Seq<Seq<char>>
    decreases s.len(),
{
    if s.len() == 0 {
        seq![Seq::<char>::empty()]
    } else if s[0] == ';' {
        seq![Seq::<char>::empty()] + split_semi(s.skip(1))
    } else {
        let r = split_semi(s.skip(1));
        seq![seq![s[0]] + r[0]] + r.skip(1)
    }
}

/// The token sequence of a SKU string: empty for the empty string, else the
/// `;`-delimited pieces with empty pieces preserved.
pub open spec fn tokenize_spec(s: Seq<char>) -> Seq<Seq<char>> {
    if s.len() == 0 {
        seq![]
    } else {
        split_semi(s)
    }
}

/// Joins tokens with `;` between them.
pub open spec fn join_semi(ts: Seq<Seq<char>>) -> Seq<char>
    decreases ts.len(),
{
    if ts.len() == 0 {
        Seq::empty()
    } else if ts.len() == 1 {
        ts[0]
    } else {
        ts[0] + seq![';'] + join_semi(ts.skip(1))
    }
}

/// Whether `s` holds no `;`.
pub open spec fn no_semi(s: Seq<char>) -> bool {
    forall|i: int| 0 <= i < s.len() ==> #[trigger] s[i] != ';'
}

/// Whether every token in `ts` holds no `;`.
pub open spec fn no_semi_all(ts: Seq<Seq<char>>) -> bool {
    forall|i: int| 0 <= i < ts.len() ==> no_semi(#[trigger] ts[i])
}

/// Splitting always yields at least one piece.
pub proof fn lemma_split_semi_len(s: Seq<char>)
    ensures
        split_semi(s).len() >= 1,
    decreases s.len(),
{
    if s.len() > 0 {
        lemma_split_semi_len(s.skip(1));
    }
}

/// A string without `;` splits into itself alone.
pub proof fn lemma_split_semi_single(s: Seq<char>)
    requires
        no_semi(s),
    ensures
        split_semi(s) == seq![s],
    decreases s.len(),
{
    if s.len() == 0 {
        assert(split_semi(s) =~~= seq![s]);
    } else {
        assert(no_semi(s.skip(1)));
        lemma_split_semi_single(s.skip(1));
        assert(seq![s[0]] + s.skip(1) =~= s);
        assert(split_semi(s) =~~= seq![s]);
    }
}

/// Splitting `a;rest` where `a` holds no `;` yields `a` and then the pieces
/// of `rest`.
pub proof fn lemma_split_semi_prepend(a: Seq<char>, rest: Seq<char>)
    requires
        no_semi(a),
    ensures
        split_semi(a + seq![';'] + rest) == seq![a] + split_semi(rest),
    decreases a.len(),
{
    let s = a + seq![';'] + rest;
    if a.len() == 0 {
        assert(s[0] == ';');
        assert(s.skip(1) =~= rest);
        assert(split_semi(s) =~~= seq![a] + split_semi(rest));
    } else {
        assert(no_semi(a.skip(1)));
        lemma_split_semi_prepend(a.skip(1), rest);
        assert(s[0] == a[0]);
        assert(s[0] != ';');
        assert(s.skip(1) =~= a.skip(1) + seq![';'] + rest);
        let r = split_semi(s.skip(1));
        lemma_split_semi_len(rest);
        assert(r == seq![a.skip(1)] + split_semi(rest));
        assert(r[0] == a.skip(1));
        assert(seq![s[0]] + r[0] =~= a);
        assert(r.skip(1) =~~= split_semi(rest));
        assert(split_semi(s) =~~= seq![a] + split_semi(rest));
    }
}

/// Splitting the join of `;`-free tokens gives the tokens back.
pub proof fn lemma_split_join(ts: Seq<Seq<char>>)
    requires
        ts.len() >= 1,
        no_semi_all(ts),
    ensures
        split_semi(join_semi(ts)) == ts,
    decreases ts.len(),
{
    if ts.len() == 1 {
        lemma_split_semi_single(ts[0]);
        assert(split_semi(join_semi(ts)) =~~= ts);
    } else {
        assert(no_semi_all(ts.skip(1)));
        lemma_split_join(ts.skip(1));
        lemma_split_semi_prepend(ts[0], join_semi(ts.skip(1)));
        assert(seq![ts[0]] + ts.skip(1) =~~= ts);
    }
}

/// Joining one more token appends `;` and the token.
pub proof fn lemma_join_push(ts: Seq<Seq<char>>, t: Seq<char>)
    requires
        ts.len() >= 1,
    ensures
        join_semi(ts.push(t)) == join_semi(ts) + seq![';'] + t,
    decreases ts.len(),
{
    if ts.len() == 1 {
        let p = ts.push(t);
        assert(p.len() == 2);
        assert(p.skip(1) =~~= seq![t]);
        assert(join_semi(p.skip(1)) == t);
        assert(join_semi(p) =~= ts[0] + seq![';'] + t);
    } else {
        lemma_join_push(ts.skip(1), t);
        let p = ts.push(t);
        assert(p.skip(1) =~~= ts.skip(1).push(t));
        assert(p[0] == ts[0]);
        assert(join_semi(p) == p[0] + seq![';'] + join_semi(p.skip(1)));
        assert(join_semi(p) =~= join_semi(ts) + seq![';'] + t);
    }
}

/// The continuation of a split: the pieces of `rest` with `prefix` glued
/// onto the front of the first one.
pub open spec fn split_cont(prefix: Seq<char>, rest: Seq<char>) -> Seq<Seq<char>> {
    let r = split_semi(rest);
    seq![prefix + r[0]] + r.skip(1)
}

/// Splits `s` on `;`, preserving empty substrings; the empty string yields
/// no tokens.
pub fn tokenize<'a>(s: &'a str) -> (r: Vec<&'a str>)
    ensures
        r.deep_view() == tokenize_spec(s@),
{
    let n = s.unicode_len();
    let mut out: Vec<&'a str> = Vec::new();
    if n == 0 {
        proof {
            assert(out.deep_view() =~~= tokenize_spec(s@));
        }
        return out;
    }
    let mut start: usize = 0;
    let mut i: usize = 0;
    proof {
        lemma_split_semi_len(s@);
        assert(s@.skip(0) =~= s@);
        assert(s@.subrange(0, 0) =~= Seq::<char>::empty());
        let r = split_semi(s@);
        assert(Seq::<char>::empty() + r[0] =~= r[0]);
        assert(seq![r[0]] + r.skip(1) =~~= r);
        assert(out.deep_view() =~~= Seq::<Seq<char>>::empty());
        assert(out.deep_view() + split_cont(Seq::<char>::empty(), s@) =~~= r);
    }
    while i < n
        invariant
            n == s@.len(),
            0 <= start <= i <= n,
            split_semi(s@) == out.deep_view() + split_cont(
                s@.subrange(start as int, i as int),
                s@.skip(i as int),
            ),
        decreases n - i,
    {
        let c = s.get_char(i);
        let ghost cur = s@.subrange(start as int, i as int);
        let ghost rest = s@.skip(i as int);
        proof {
            assert(rest[0] == s@[i as int]);
            assert(rest.skip(1) =~= s@.skip(i + 1));
        }
        if c == ';' {
            let tok = s.substring_char(start, i);
            let ghost old_out = out.deep_view();
            out.push(tok);
            proof {
                assert(out.deep_view() =~~= old_out.push(cur));
                let r2 = split_semi(s@.skip(i + 1));
                lemma_split_semi_len(s@.skip(i + 1));
                // rest begins with ';', so its pieces are the empty piece and
                // the pieces of the remainder.
                assert(split_semi(rest) =~~= seq![Seq::<char>::empty()] + r2);
                assert(split_cont(cur, rest) =~~= seq![cur] + r2);
                assert(cur + split_semi(rest)[0] =~= cur);
                assert(s@.subrange(i + 1, i + 1) =~= Seq::<char>::empty());
                assert(split_cont(s@.subrange(i + 1, i + 1), s@.skip(i + 1)) =~~= r2) by {
                    assert(Seq::<char>::empty() + r2[0] =~= r2[0]);
                    assert(seq![r2[0]] + r2.skip(1) =~~= r2);
                }
                assert(out.deep_view() + split_cont(s@.subrange(i + 1, i + 1), s@.skip(i + 1))
                    =~~= old_out + split_cont(cur, rest));
            }
            start = i + 1;
        } else {
            proof {
                let r2 = split_semi(s@.skip(i + 1));
                lemma_split_semi_len(s@.skip(i + 1));
                assert(split_semi(rest) =~~= seq![seq![rest[0]] + r2[0]] + r2.skip(1));
                assert(s@.subrange(start as int, i + 1) =~= cur + seq![s@[i as int]]);
                assert(cur + split_semi(rest)[0] =~= (cur + seq![s@[i as int]]) + r2[0]);
                assert(split_semi(rest).skip(1) =~~= r2.skip(1));
                assert(split_cont(cur, rest) =~~= split_cont(
                    s@.subrange(start as int, i + 1),
                    s@.skip(i + 1),
                ));
            }
        }
        i += 1;
    }
    let tok = s.substring_char(start, n);
    let ghost old_out = out.deep_view();
    out.push(tok);
    proof {
        let cur = s@.subrange(start as int, n as int);
        assert(out.deep_view() =~~= old_out.push(cur));
        assert(s@.skip(n as int) =~= Seq::<char>::empty());
        assert(split_semi(Seq::<char>::empty()) =~~= seq![Seq::<char>::empty()]);
        assert(split_cont(cur, s@.skip(n as int)) =~~= seq![cur]) by {
            assert(cur + Seq::<char>::empty() =~= cur);
            assert(seq![Seq::<char>::empty()].skip(1) =~~= Seq::<Seq<char>>::empty());
        }
        assert(old_out + seq![cur] =~~= old_out.push(cur));
        assert(out.deep_view() =~~= tokenize_spec(s@));
    }
    out
}

} // verus!
