//! Character-level text helpers: comparing strings and cutting text into lines.
use vstd::prelude::*;
use vstd::std_specs::iter::IteratorSpec;

verus! {

broadcast use {vstd::string::axiom_spec_iter, vstd::string::next_postcondition};

/// Relies on String::push: appends one character.
#[verifier::external_body]
pub(crate) fn push_char(s: &mut String, c: char)
    ensures
        final(s)@ == old(s)@.push(c),
{
    s.push(c)
}

/// Whether two strings hold the same characters.
pub fn str_eq(a: &str, b: &str) -> (r: bool)
    ensures
        r == (a@ == b@),
{
    let n = a.unicode_len();
    if n != b.unicode_len() {
        return false;
    }
    let mut i: usize = 0;
    while i < n
        invariant
            n == a@.len() == b@.len(),
            i <= n,
            a@.subrange(0, i as int) == b@.subrange(0, i as int),
        decreases n - i,
    {
        if a.get_char(i) != b.get_char(i) {
            return false;
        }
        assert(a@.subrange(0, i + 1) =~= a@.subrange(0, i as int).push(a@[i as int]));
        assert(b@.subrange(0, i + 1) =~= b@.subrange(0, i as int).push(b@[i as int]));
        i = i + 1;
    }
    assert(a@ =~= a@.subrange(0, n as int));
    assert(b@ =~= b@.subrange(0, n as int));
    true
}

/// The pieces of `t` between line feeds; there is always at least one.
pub open spec fn pieces(t: Seq<char>) -> Seq<Seq<char>>
    decreases t.len(),
{
    if t.len() == 0 {
        seq![Seq::empty()]
    } else {
        let p = pieces(t.drop_last());
        if t.last() == '\n' {
            p.push(Seq::empty())
        } else {
            p.update(p.len() - 1, p.last().push(t.last()))
        }
    }
}

/// A line that ended in CR LF loses its CR.
pub open spec fn strip_cr(l: Seq<char>) -> Seq<char> {
    if l.len() > 0 && l.last() == '\r' {
        l.drop_last()
    } else {
        l
    }
}

/// The lines of `t`: each line feed ends a line (and takes a CR before it
/// along); a last line without a line feed counts only if it is not empty.
pub open spec fn lines_of(t: Seq<char>) -> Seq<Seq<char>> {
    let p = pieces(t);
    let body = p.drop_last().map_values(|l: Seq<char>| strip_cr(l));
    if p.last().len() == 0 {
        body
    } else {
        body.push(p.last())
    }
}

pub proof fn lemma_pieces_len(t: Seq<char>)
    ensures
        pieces(t).len() >= 1,
    decreases t.len(),
{
    if t.len() > 0 {
        lemma_pieces_len(t.drop_last());
    }
}

/// Appending text without a line feed extends the last piece.
pub proof fn lemma_pieces_append(t: Seq<char>, u: Seq<char>)
    requires
        !u.contains('\n'),
    ensures
        pieces(t + u) == pieces(t).update(pieces(t).len() - 1, pieces(t).last() + u),
    decreases u.len(),
{
    lemma_pieces_len(t);
    let p = pieces(t);
    if u.len() == 0 {
        assert(t + u =~= t);
        assert(p.last() + u =~= p.last());
        assert(p.update(p.len() - 1, p.last()) =~= p);
    } else {
        let u0 = u.drop_last();
        assert(!u0.contains('\n')) by {
            if u0.contains('\n') {
                let k = choose|k: int| 0 <= k < u0.len() && u0[k] == '\n';
                assert(u[k] == '\n');
            }
        }
        lemma_pieces_append(t, u0);
        assert((t + u).drop_last() =~= t + u0);
        assert((t + u).last() == u.last());
        assert(u[u.len() - 1] != '\n');
        lemma_pieces_len(t + u0);
        let q = pieces(t + u0);
        assert(q.len() == p.len());
        assert(q.last() == p.last() + u0);
        assert(pieces(t + u) == q.update(q.len() - 1, q.last().push(u.last())));
        assert((p.last() + u0).push(u.last()) =~= p.last() + u);
        assert(pieces(t + u) =~= p.update(p.len() - 1, p.last() + u));
    }
}

/// Cuts `text` into its lines, as `lines_of` says.
pub fn split_lines(text: &str) -> (r: Vec<String>)
    ensures
        r@.map_values(|s: String| s@) == lines_of(text@),
{
    let mut out: Vec<String> = Vec::new();
    let mut cur = String::new();
    let mut pending_cr = false;
    let mut it = text.chars();
    let ghost mut seen: Seq<char> = Seq::empty();
    proof {
        lemma_pieces_len(seen);
    }
    loop
        invariant_except_break
            seen + it.remaining() == text@,
            it.decrease() is Some,
            pieces(seen).len() >= 1,
            out@.map_values(|s: String| s@) == pieces(seen).drop_last().map_values(
                |l: Seq<char>| strip_cr(l),
            ),
            (if pending_cr { cur@.push('\r') } else { cur@ }) == pieces(seen).last(),
            !pending_cr ==> (cur@.len() == 0 || cur@.last() != '\r'),
        ensures
            seen == text@,
            pieces(seen).len() >= 1,
            out@.map_values(|s: String| s@) == pieces(seen).drop_last().map_values(
                |l: Seq<char>| strip_cr(l),
            ),
            (if pending_cr { cur@.push('\r') } else { cur@ }) == pieces(seen).last(),
        decreases it.decrease()->0,
    {
        let ghost before = it;
        match it.next() {
            None => {
                assert(seen =~= text@);
                break;
            },
            Some(c) => {
                proof {
                    assert(it.remaining() == before.remaining().drop_first());
                    assert(c == before.remaining()[0]);
                    let s2 = seen.push(c);
                    assert(s2 + it.remaining() =~= text@);
                    assert(s2.drop_last() =~= seen);
                    lemma_pieces_len(s2);
                }
                let ghost old_out = out@;
                let ghost p = pieces(seen);
                if c == '\n' {
                    let line = cur;
                    let ghost lv = line@;
                    out.push(line);
                    cur = String::new();
                    proof {
                        let np = pieces(seen.push(c));
                        assert(np == p.push(Seq::<char>::empty()));
                        assert(np.drop_last() =~= p);
                        if pending_cr {
                            assert(strip_cr(p.last()) =~= lv);
                        } else {
                            assert(strip_cr(p.last()) =~= lv);
                        }
                        assert(strip_cr(p.last()) == lv);
                        assert(out@.map_values(|s: String| s@) =~= old_out.map_values(
                            |s: String| s@,
                        ).push(lv));
                        assert(p.map_values(|l: Seq<char>| strip_cr(l)) =~= p.drop_last().map_values(
                            |l: Seq<char>| strip_cr(l),
                        ).push(strip_cr(p.last())));
                        assert(out@.map_values(|s: String| s@) =~= np.drop_last().map_values(
                            |l: Seq<char>| strip_cr(l),
                        ));
                    }
                    pending_cr = false;
                } else {
                    if pending_cr {
                        push_char(&mut cur, '\r');
                    }
                    if c == '\r' {
                        pending_cr = true;
                    } else {
                        push_char(&mut cur, c);
                        pending_cr = false;
                    }
                    proof {
                        let np = pieces(seen.push(c));
                        assert(np == p.update(p.len() - 1, p.last().push(c)));
                        assert(np.drop_last() =~= p.drop_last());
                        assert((if pending_cr { cur@.push('\r') } else { cur@ }) =~= np.last());
                    }
                }
                proof {
                    seen = seen.push(c);
                }
            },
        }
    }
    let ghost p = pieces(seen);
    if pending_cr {
        push_char(&mut cur, '\r');
    }
    if cur.unicode_len() > 0 {
        out.push(cur);
        proof {
            assert(p =~= p.drop_last().push(p.last()));
            assert(out@.map_values(|s: String| s@) =~= p.drop_last().map_values(
                |l: Seq<char>| strip_cr(l),
            ).push(p.last()));
        }
    }
    out
}

} // verus!
