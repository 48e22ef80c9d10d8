use vstd::prelude::*;

use crate::grammar::{is_punct, is_space, punct_kinds, scan, scan_kinds, single_kind, skip_space};
use crate::token::Kind;

verus! {

/// Where the cursor stands after `n` steps of the scanner from `pos`.
pub open spec fn cursor_after(s: Seq<char>, pos: int, n: nat) -> int
    decreases n,
{
    if n == 0 {
        pos
    } else {
        cursor_after(s, scan(s, pos).2, (n - 1) as nat)
    }
}

proof fn lemma_skip_space_bounds(s: Seq<char>, p: int)
    requires
        0 <= p <= s.len(),
    ensures
        p <= skip_space(s, p) <= s.len(),
    decreases s.len() - p,
{
    if p < s.len() && is_space(s[p]) {
        lemma_skip_space_bounds(s, p + 1);
    }
}

/// Once a step has produced `Eof`, every further step produces `Eof` again, with the
/// same span, and leaves the cursor where it is.
pub proof fn lemma_eof_repeats(s: Seq<char>, pos: int, n: nat)
    requires
        0 <= pos <= s.len(),
        scan(s, pos).0 == Kind::Eof,
    ensures
        cursor_after(s, pos, n + 1) == scan(s, pos).2,
        scan(s, cursor_after(s, pos, n + 1)) == scan(s, pos),
    decreases n,
{
    lemma_skip_space_bounds(s, pos);
    let e = scan(s, pos).2;
    assert(e == s.len());
    assert(skip_space(s, e) == e);
    assert(scan(s, e) == scan(s, pos));
    if n > 0 {
        lemma_eof_repeats(s, e, (n - 1) as nat);
        assert(cursor_after(s, e, n) == cursor_after(s, pos, n + 1));
    }
}

proof fn lemma_punct_from(s: Seq<char>, p: int)
    requires
        0 <= p <= s.len(),
        forall|i: int| 0 <= i < s.len() ==> is_punct(#[trigger] s[i]),
    ensures
        scan_kinds(s, p) == punct_kinds(s.subrange(p, s.len() as int)).add(seq![Kind::Eof]),
    decreases s.len() - p,
{
    let t = s.subrange(p, s.len() as int);
    if p == s.len() {
        assert(t.len() == 0);
        assert(punct_kinds(t).add(seq![Kind::Eof]) =~= seq![Kind::Eof]);
    } else {
        let c = s[p];
        assert(is_punct(c));
        assert(!is_space(c));
        assert(skip_space(s, p) == p);
        assert(t[0] == c);
        let (k, st, e) = scan(s, p);
        if c == '=' && p + 1 < s.len() && s[p + 1] == '=' || c == '!' && p + 1 < s.len() && s[p
            + 1] == '=' {
            assert(t[1] == s[p + 1]);
            assert(e == p + 2);
            assert(t.drop_first().drop_first() =~= s.subrange(p + 2, s.len() as int));
        } else {
            assert(k == single_kind(c)->0);
            assert(e == p + 1);
            assert(t.len() >= 2 ==> t[1] == s[p + 1]);
            assert(t.drop_first() =~= s.subrange(p + 1, s.len() as int));
        }
        lemma_punct_from(s, e);
        assert(k != Kind::Eof);
        assert(scan_kinds(s, p) == seq![k].add(scan_kinds(s, e)));
        let rest = if e == p + 2 {
            t.drop_first().drop_first()
        } else {
            t.drop_first()
        };
        assert(punct_kinds(t) == seq![k].add(punct_kinds(rest)));
        assert(seq![k].add(punct_kinds(rest)).add(seq![Kind::Eof]) =~= seq![k].add(
            punct_kinds(rest).add(seq![Kind::Eof]),
        ));
    }
}

/// A text made only of operators and punctuation scans, call after call, to the direct
/// mapping of its characters (`==` and `!=` as one token each), followed by one `Eof`.
pub proof fn lemma_punct_text(s: Seq<char>)
    requires
        forall|i: int| 0 <= i < s.len() ==> is_punct(#[trigger] s[i]),
    ensures
        scan_kinds(s, 0) == punct_kinds(s).add(seq![Kind::Eof]),
{
    lemma_punct_from(s, 0);
    assert(s.subrange(0, s.len() as int) =~= s);
}

} // verus!
