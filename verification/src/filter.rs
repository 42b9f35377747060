//! Flag-mask filtering of a snapshot.
use vstd::prelude::*;
use vstd::seq_lib::*;
use crate::interface::NetworkInterface;

verus! {

/// Whether every bit of `mask` is set in `flags`.
pub open spec fn spec_flags_match(flags: i32, mask: i32) -> bool {
    flags & mask == mask
}

/// The record predicate that a flag mask induces.
pub open spec fn flag_pred(mask: i32) -> spec_fn(NetworkInterface) -> bool {
    |ifa: NetworkInterface| spec_flags_match(ifa.flags, mask)
}

/// The records whose flag word has every bit of `mask` set, in their
/// original order.
pub open spec fn spec_filter(s: Seq<NetworkInterface>, mask: i32) -> Seq<NetworkInterface> {
    s.filter(flag_pred(mask))
}

/// Keeps the records whose flag word has every bit of `flags` set,
/// preserving their relative order.
pub fn filter(ifas: Vec<NetworkInterface>, flags: i32) -> (r: Vec<NetworkInterface>)
    ensures
        r@ == spec_filter(ifas@, flags),
{
    let ghost all = ifas@;
    let mut rest = ifas;
    let mut out: Vec<NetworkInterface> = Vec::new();
    let ghost mut processed: Seq<NetworkInterface> = Seq::empty();
    proof {
        reveal(Seq::<NetworkInterface>::filter);
        assert(all =~= processed + rest@);
        assert(out@ =~= spec_filter(processed, flags));
    }
    while rest.len() > 0
        invariant
            all == processed + rest@,
            out@ == spec_filter(processed, flags),
        decreases rest.len(),
    {
        let ghost o = rest@;
        let x = rest.remove(0);
        proof {
            reveal(Seq::<NetworkInterface>::filter);
            assert(o =~= seq![x] + rest@);
            assert((processed + seq![x]) + rest@ =~= processed + (seq![x] + rest@));
            assert(processed.push(x) =~= processed + seq![x]);
            assert(processed.push(x).drop_last() =~= processed);
            assert(spec_filter(processed.push(x), flags) == if flag_pred(flags)(x) {
                spec_filter(processed, flags).push(x)
            } else {
                spec_filter(processed, flags)
            });
        }
        if x.flags & flags == flags {
            out.push(x);
            proof {
                processed = processed.push(x);
            }
        } else {
            proof {
                processed = processed.push(x);
            }
        }
    }
    proof {
        assert(rest@ =~= Seq::<NetworkInterface>::empty());
        assert(processed =~= all);
    }
    out
}

/// Every flag word contains the empty mask.
proof fn lemma_zero_mask_matches()
    by (bit_vector)
    ensures
        forall|f: i32| #[trigger] (f & 0i32) == 0i32,
{
}

/// A flag word contains a union of two masks exactly when it contains
/// both.
proof fn lemma_mask_conjunction()
    by (bit_vector)
    ensures
        forall|f: i32, x: i32, y: i32|
            (#[trigger] (f & (x | y)) == (x | y)) <==> ((f & x) == x && (f & y) == y),
{
}

/// The zero mask keeps every record: filtering with it returns the
/// snapshot unchanged, in the same order.
pub proof fn lemma_filter_zero_mask(s: Seq<NetworkInterface>)
    ensures
        spec_filter(s, 0) == s,
    decreases s.len(),
{
    reveal(Seq::<NetworkInterface>::filter);
    lemma_zero_mask_matches();
    if s.len() == 0 {
        assert(spec_filter(s, 0) =~= s);
    } else {
        let t = s.drop_last();
        lemma_filter_zero_mask(t);
        assert(flag_pred(0)(s.last()));
        assert(spec_filter(s, 0) == spec_filter(t, 0).push(s.last()));
        assert(t.push(s.last()) =~= s);
    }
}

/// Filtering twice is filtering once with the union of the two masks.
pub proof fn lemma_filter_mask_compose(s: Seq<NetworkInterface>, a: i32, b: i32)
    ensures
        spec_filter(spec_filter(s, a), b) == spec_filter(s, a | b),
    decreases s.len(),
{
    reveal(Seq::<NetworkInterface>::filter);
    lemma_mask_conjunction();
    if s.len() == 0 {
        assert(spec_filter(s, a) =~= Seq::<NetworkInterface>::empty());
        assert(spec_filter(spec_filter(s, a), b) =~= spec_filter(s, a | b));
    } else {
        let t = s.drop_last();
        let l = s.last();
        lemma_filter_mask_compose(t, a, b);
        let fa_t = spec_filter(t, a);
        assert((l.flags & (a | b)) == (a | b) <==> ((l.flags & a) == a && (l.flags & b) == b));
        if flag_pred(a)(l) {
            assert(spec_filter(s, a) == fa_t.push(l));
            assert(fa_t.push(l).drop_last() =~= fa_t);
            assert(fa_t.push(l).last() == l);
            assert(spec_filter(fa_t.push(l), b) == if flag_pred(b)(l) {
                spec_filter(fa_t, b).push(l)
            } else {
                spec_filter(fa_t, b)
            });
        } else {
            assert(spec_filter(s, a) == fa_t);
            assert(!flag_pred(a | b)(l));
        }
    }
}

/// A snapshot holding a record that matches the mask filters to a
/// non-empty result: one holding a loopback record stays non-empty under
/// the loopback mask.
pub proof fn lemma_filter_keeps_matching(s: Seq<NetworkInterface>, mask: i32, i: int)
    requires
        0 <= i < s.len(),
        spec_flags_match(s[i].flags, mask),
    ensures
        spec_filter(s, mask).len() > 0,
{
    s.lemma_filter_contains(flag_pred(mask), i);
    assert(spec_filter(s, mask).contains(s[i]));
}

/// Whether `a` can be read off `b` left to right: the relative order of
/// `a`'s records is the order they have in `b`.
pub open spec fn is_subsequence(a: Seq<NetworkInterface>, b: Seq<NetworkInterface>) -> bool
    decreases a.len() + b.len(),
{
    if a.len() == 0 {
        true
    } else if b.len() == 0 {
        false
    } else if a.last() == b.last() {
        is_subsequence(a.drop_last(), b.drop_last())
    } else {
        is_subsequence(a, b.drop_last())
    }
}

/// A subsequence of `b` is one of `b` with anything appended.
proof fn lemma_subsequence_extend(a: Seq<NetworkInterface>, b: Seq<NetworkInterface>, c: NetworkInterface)
    requires
        is_subsequence(a, b),
    ensures
        is_subsequence(a, b.push(c)),
    decreases a.len() + b.len() + 1,
{
    if a.len() == 0 {
    } else {
        assert(b.push(c).last() == c);
        assert(b.push(c).drop_last() =~= b);
        if a.last() == c {
            lemma_subsequence_drop(a, b);
        }
    }
}

/// Dropping the last record of a subsequence leaves a subsequence.
proof fn lemma_subsequence_drop(a: Seq<NetworkInterface>, b: Seq<NetworkInterface>)
    requires
        is_subsequence(a, b),
        a.len() > 0,
    ensures
        is_subsequence(a.drop_last(), b),
    decreases a.len() + b.len(),
{
    if a.last() == b.last() {
        lemma_subsequence_extend(a.drop_last(), b.drop_last(), b.last());
        assert(b.drop_last().push(b.last()) =~= b);
    } else {
        lemma_subsequence_drop(a, b.drop_last());
        lemma_subsequence_extend(a.drop_last(), b.drop_last(), b.last());
        assert(b.drop_last().push(b.last()) =~= b);
    }
}

/// Filtering preserves the relative order of its input: the result is a
/// subsequence of the snapshot it was drawn from.
pub proof fn lemma_filter_preserves_order(s: Seq<NetworkInterface>, mask: i32)
    ensures
        is_subsequence(spec_filter(s, mask), s),
    decreases s.len(),
{
    reveal(Seq::<NetworkInterface>::filter);
    if s.len() == 0 {
        assert(spec_filter(s, mask) =~= s);
    } else {
        let t = s.drop_last();
        let l = s.last();
        lemma_filter_preserves_order(t, mask);
        assert(t.push(l) =~= s);
        if flag_pred(mask)(l) {
            assert(spec_filter(s, mask) == spec_filter(t, mask).push(l));
            assert(spec_filter(t, mask).push(l).drop_last() =~= spec_filter(t, mask));
            assert(spec_filter(t, mask).push(l).last() == l);
        } else {
            assert(spec_filter(s, mask) == spec_filter(t, mask));
            lemma_subsequence_extend(spec_filter(t, mask), t, l);
        }
    }
}

} // verus!
