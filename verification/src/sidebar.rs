//! The platform sidebar: which platforms it lists, in what order.
//!
//! Empty platforms are noise in the sidebar and are dropped; the rest are
//! listed by display name, compared case-insensitively, and platforms whose
//! names compare equal keep the order the server gave them.

use vstd::prelude::*;

use crate::models::{display_name_spec, Platform};
use crate::text::chars_of;

verus! {

/// `str::to_lowercase`: full Unicode lower-casing.
pub uninterp spec fn lowercase(s: Seq<char>) -> Seq<char>;

/// Calls `str::to_lowercase`. Unicode case mapping takes tables to state, so
/// the contract only names the result as a function of the text.
#[verifier::external_body]
fn to_lowercase(s: &str) -> (r: String)
    ensures
        r@ == lowercase(s@),
{
    s.to_lowercase()
}

/// What a platform is ordered by.
pub open spec fn sort_key(p: Platform) -> Seq<char> {
    lowercase(display_name_spec(p))
}

/// String order: character by character, a proper prefix first. This is
/// the order of `String`, since UTF-8 preserves the order of code points.
pub open spec fn lex_lt(a: Seq<char>, b: Seq<char>) -> bool
    decreases a.len(),
{
    if b.len() == 0 {
        false
    } else if a.len() == 0 {
        true
    } else if a[0] != b[0] {
        a[0] < b[0]
    } else {
        lex_lt(a.drop_first(), b.drop_first())
    }
}

pub proof fn lemma_lex_irreflexive(a: Seq<char>)
    ensures
        !lex_lt(a, a),
    decreases a.len(),
{
    if a.len() > 0 {
        lemma_lex_irreflexive(a.drop_first());
    }
}

pub proof fn lemma_lex_transitive(a: Seq<char>, b: Seq<char>, c: Seq<char>)
    requires
        lex_lt(a, b),
        lex_lt(b, c),
    ensures
        lex_lt(a, c),
    decreases a.len(),
{
    if a.len() > 0 && b.len() > 0 && c.len() > 0 {
        if a[0] == b[0] && b[0] == c[0] {
            lemma_lex_transitive(a.drop_first(), b.drop_first(), c.drop_first());
        }
    }
}

pub proof fn lemma_lex_total(a: Seq<char>, b: Seq<char>)
    ensures
        a =~= b || lex_lt(a, b) || lex_lt(b, a),
    decreases a.len(),
{
    if a.len() > 0 && b.len() > 0 && a[0] == b[0] {
        lemma_lex_total(a.drop_first(), b.drop_first());
        if a.drop_first() =~= b.drop_first() {
            assert(a =~= seq![a[0]] + a.drop_first());
            assert(b =~= seq![b[0]] + b.drop_first());
        }
    }
}

/// `a` sorts no later than `b`.
pub open spec fn lex_le(a: Seq<char>, b: Seq<char>) -> bool {
    !lex_lt(b, a)
}

proof fn lemma_lt_le(a: Seq<char>, b: Seq<char>, c: Seq<char>)
    requires
        lex_lt(a, b),
        lex_le(b, c),
    ensures
        lex_lt(a, c),
{
    lemma_lex_total(b, c);
    if lex_lt(b, c) {
        lemma_lex_transitive(a, b, c);
    } else {
        assert(b =~= c);
    }
}

/// The platforms that have games, in the order given.
pub open spec fn with_games(ps: Seq<Platform>) -> Seq<Platform>
    decreases ps.len(),
{
    if ps.len() == 0 {
        Seq::empty()
    } else {
        let rest = with_games(ps.drop_last());
        if ps.last().rom_count > 0 {
            rest.push(ps.last())
        } else {
            rest
        }
    }
}

/// `out` is `src` stably sorted by key, `perm` saying where each element came
/// from: a permutation, keys in order, and equal keys in their original order.
pub open spec fn stably_sorted(src: Seq<Platform>, out: Seq<Platform>, perm: Seq<int>) -> bool {
    &&& out.len() == src.len()
    &&& perm.len() == src.len()
    &&& forall|i: int| 0 <= i < out.len() ==> 0 <= #[trigger] perm[i] < src.len() && out[i] == src[perm[i]]
    &&& forall|i: int, j: int| 0 <= i < j < out.len() ==> perm[i] != perm[j]
    &&& forall|i: int, j: int|
        0 <= i < j < out.len() ==> lex_le(sort_key(#[trigger] out[i]), sort_key(#[trigger] out[j]))
    &&& forall|i: int, j: int|
        0 <= i < j < out.len() && sort_key(#[trigger] out[i]) == sort_key(#[trigger] out[j])
            ==> perm[i] < perm[j]
}

fn lex_less(a: &[char], b: &[char]) -> (r: bool)
    ensures
        r == lex_lt(a@, b@),
{
    let mut i: usize = 0;
    assert(a@.subrange(0, a@.len() as int) =~= a@);
    assert(b@.subrange(0, b@.len() as int) =~= b@);
    while i < a.len() && i < b.len() && a[i] == b[i]
        invariant
            i <= a@.len(),
            i <= b@.len(),
            lex_lt(a@, b@) == lex_lt(
                a@.subrange(i as int, a@.len() as int),
                b@.subrange(i as int, b@.len() as int),
            ),
        decreases a.len() - i,
    {
        let ghost sa = a@.subrange(i as int, a@.len() as int);
        let ghost sb = b@.subrange(i as int, b@.len() as int);
        assert(sa.drop_first() =~= a@.subrange(i + 1, a@.len() as int));
        assert(sb.drop_first() =~= b@.subrange(i + 1, b@.len() as int));
        assert(sa[0] == a@[i as int] && sb[0] == b@[i as int]);
        i += 1;
    }
    let ghost sa = a@.subrange(i as int, a@.len() as int);
    let ghost sb = b@.subrange(i as int, b@.len() as int);
    if i == b.len() {
        false
    } else if i == a.len() {
        true
    } else {
        assert(sa[0] == a@[i as int] && sb[0] == b@[i as int]);
        a[i] < b[i]
    }
}

/// Inserting a new last element at the first position whose key is
/// greater keeps the sequence stably sorted.
proof fn lemma_insert_keeps_sorted(
    f: Seq<Platform>,
    out: Seq<Platform>,
    perm: Seq<int>,
    p: Platform,
    pos: int,
)
    requires
        stably_sorted(f, out, perm),
        0 <= pos <= out.len(),
        forall|j: int| 0 <= j < pos ==> !lex_lt(sort_key(p), sort_key(#[trigger] out[j])),
        pos < out.len() ==> lex_lt(sort_key(p), sort_key(out[pos])),
    ensures
        stably_sorted(f.push(p), out.insert(pos, p), perm.insert(pos, f.len() as int)),
{
    let n = f.len() as int;
    let f2 = f.push(p);
    let o = out.insert(pos, p);
    let q = perm.insert(pos, n);
    out.insert_ensures(pos, p);
    perm.insert_ensures(pos, n);
    let kp = sort_key(p);
    // Where each new index came from.
    assert forall|i: int| 0 <= i < o.len() implies 0 <= #[trigger] q[i] < f2.len() && o[i]
        == f2[q[i]] by {
        if i < pos {
            assert(o[i] == out[i] && q[i] == perm[i]);
        } else if i > pos {
            assert(o[i] == out[i - 1] && q[i] == perm[i - 1]);
        }
    }
    assert forall|i: int, j: int| 0 <= i < j < o.len() implies q[i] != q[j] by {
        if i != pos && j != pos {
            let a = if i < pos { i } else { i - 1 };
            let b = if j < pos { j } else { j - 1 };
            assert(q[i] == perm[a] && q[j] == perm[b]);
            assert(0 <= a < b < out.len());
        } else if i == pos {
            assert(q[j] == perm[j - 1]);
        } else {
            assert(q[i] == perm[i]);
        }
    }
    assert forall|i: int, j: int| 0 <= i < j < o.len() implies lex_le(
        sort_key(#[trigger] o[i]),
        sort_key(#[trigger] o[j]),
    ) && (sort_key(o[i]) == sort_key(o[j]) ==> q[i] < q[j]) by {
        if i != pos && j != pos {
            let a = if i < pos { i } else { i - 1 };
            let b = if j < pos { j } else { j - 1 };
            assert(o[i] == out[a] && o[j] == out[b]);
            assert(q[i] == perm[a] && q[j] == perm[b]);
            assert(0 <= a < b < out.len());
        } else if i == pos {
            // p sorts before everything after it, strictly.
            assert(o[j] == out[j - 1]);
            let kj = sort_key(out[j - 1]);
            if j - 1 == pos {
                assert(lex_lt(kp, kj));
            } else {
                assert(lex_le(sort_key(out[pos]), kj));
                lemma_lt_le(kp, sort_key(out[pos]), kj);
            }
            assert(lex_lt(kp, kj));
            if lex_lt(kj, kp) {
                lemma_lex_transitive(kp, kj, kp);
                lemma_lex_irreflexive(kp);
            }
            if kp == kj {
                lemma_lex_irreflexive(kp);
            }
        } else {
            // Everything before p sorts no later than it, and came earlier.
            assert(o[i] == out[i] && q[i] == perm[i]);
            assert(!lex_lt(kp, sort_key(out[i])));
        }
    }
}

/// The sidebar: platforms with games, ordered case-insensitively by the name
/// they are shown under, ties kept in the server's order.
pub fn sidebar_platforms(platforms: Vec<Platform>) -> (out: Vec<Platform>)
    ensures
        exists|perm: Seq<int>| stably_sorted(with_games(platforms@), out@, perm),
{
    let ghost input = platforms@;
    let mut rest = platforms;
    let mut out: Vec<Platform> = Vec::new();
    let mut keys: Vec<Vec<char>> = Vec::new();
    let ghost mut perm: Seq<int> = Seq::empty();
    let ghost mut k: int = 0;
    assert(input.take(0) =~= Seq::<Platform>::empty());
    while rest.len() > 0
        invariant
            0 <= k <= input.len(),
            rest@ == input.subrange(k, input.len() as int),
            keys@.len() == out@.len(),
            forall|i: int| 0 <= i < out@.len() ==> (#[trigger] keys@[i])@ == sort_key(out@[i]),
            stably_sorted(with_games(input.take(k)), out@, perm),
        decreases rest.len(),
    {
        let ghost f = with_games(input.take(k));
        let p = rest.remove(0);
        assert(p == input[k]);
        let ghost k1 = k + 1;
        assert(input.take(k1).drop_last() =~= input.take(k));
        assert(input.take(k1).last() == p);
        proof {
            k = k1;
        }
        if p.rom_count > 0 {
            let ghost f2 = f.push(p);
            assert(with_games(input.take(k)) == f2);
            let name = to_lowercase(p.display_name());
            let key = chars_of(name.as_str());
            assert(key@ == sort_key(p));
            let mut pos: usize = 0;
            loop
                invariant
                    pos <= keys@.len(),
                    forall|j: int| 0 <= j < pos ==> !lex_lt(key@, #[trigger] keys@[j]@),
                ensures
                    pos <= keys@.len(),
                    forall|j: int| 0 <= j < pos ==> !lex_lt(key@, #[trigger] keys@[j]@),
                    pos < keys@.len() ==> lex_lt(key@, keys@[pos as int]@),
                decreases keys.len() - pos,
            {
                if pos >= keys.len() {
                    break;
                }
                if lex_less(key.as_slice(), keys[pos].as_slice()) {
                    break;
                }
                pos += 1;
            }
            let ghost old_out = out@;
            let ghost old_keys = keys@;
            let ghost old_perm = perm;
            let ghost n = f.len() as int;
            proof {
                old_out.insert_ensures(pos as int, p);
                old_perm.insert_ensures(pos as int, n);
                keys@.insert_ensures(pos as int, key);
                perm = perm.insert(pos as int, n);
            }
            out.insert(pos, p);
            keys.insert(pos, key);
            proof {
                let o = out@;
                assert(o.len() == f2.len());
                assert forall|i: int| 0 <= i < o.len() implies (#[trigger] keys@[i])@ == sort_key(
                    o[i],
                ) by {
                    if i > pos {
                        assert(keys@[i] == old_keys[i - 1]);
                        assert(o[i] == old_out[i - 1]);
                    } else if i < pos {
                        assert(keys@[i] == old_keys[i]);
                        assert(o[i] == old_out[i]);
                    }
                }
                assert forall|j: int| 0 <= j < pos implies !lex_lt(sort_key(p), sort_key(
                    #[trigger] old_out[j],
                )) by {
                    assert(old_keys[j]@ == sort_key(old_out[j]));
                }
                if pos < old_out.len() {
                    assert(old_keys[pos as int]@ == sort_key(old_out[pos as int]));
                }
                lemma_insert_keeps_sorted(f, old_out, old_perm, p, pos as int);
            }
        } else {
            assert(with_games(input.take(k)) == f);
        }
    }
    assert(input.take(k) =~= input);
    out
}

} // verus!
