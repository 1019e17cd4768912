//! The order in which Minecraft versions are listed: by their numeric
//! parts, and by their text where the parts agree.

use std::cmp::Ordering;
use vstd::prelude::*;
use crate::text::chars_of;
use crate::version::{char_codes, lemma_char_codes_injective, part_ints, version_parts, version_parts_of};

verus! {

/// The opposite of an ordering.
pub open spec fn opposite(o: Ordering) -> Ordering {
    match o {
        Ordering::Less => Ordering::Greater,
        Ordering::Equal => Ordering::Equal,
        Ordering::Greater => Ordering::Less,
    }
}

/// Lexicographic order of integer sequences: the first differing element
/// decides, and a proper prefix comes first.
pub open spec fn lex_order(a: Seq<int>, b: Seq<int>) -> Ordering
    decreases a.len(),
{
    if a.len() == 0 {
        if b.len() == 0 { Ordering::Equal } else { Ordering::Less }
    } else if b.len() == 0 {
        Ordering::Greater
    } else if a[0] < b[0] {
        Ordering::Less
    } else if a[0] > b[0] {
        Ordering::Greater
    } else {
        lex_order(a.drop_first(), b.drop_first())
    }
}

/// The order of two version texts: their numeric parts compared
/// lexicographically, and where those agree, the texts themselves compared
/// character by character (the order of `str`, since UTF-8 keeps the order
/// of code points).
pub open spec fn version_order(a: Seq<char>, b: Seq<char>) -> Ordering {
    match lex_order(part_ints(version_parts_of(a)), part_ints(version_parts_of(b))) {
        Ordering::Equal => lex_order(char_codes(a), char_codes(b)),
        o => o,
    }
}

/// `a` is listed before `b` (it is the newer version).
pub open spec fn newer(a: Seq<char>, b: Seq<char>) -> bool {
    version_order(a, b) == Ordering::Greater
}

proof fn lemma_lex_opposite(a: Seq<int>, b: Seq<int>)
    ensures
        lex_order(a, b) == opposite(lex_order(b, a)),
    decreases a.len(),
{
    if a.len() > 0 && b.len() > 0 && a[0] == b[0] {
        lemma_lex_opposite(a.drop_first(), b.drop_first());
    }
}

proof fn lemma_lex_equal(a: Seq<int>, b: Seq<int>)
    ensures
        lex_order(a, b) == Ordering::Equal <==> a == b,
    decreases a.len(),
{
    if a.len() > 0 && b.len() > 0 && a[0] == b[0] {
        lemma_lex_equal(a.drop_first(), b.drop_first());
        if a.drop_first() == b.drop_first() {
            assert(a =~= seq![a[0]] + a.drop_first());
            assert(b =~= seq![b[0]] + b.drop_first());
        }
        if a == b {
            assert(a.drop_first() =~= b.drop_first());
        }
    } else if a.len() == 0 && b.len() == 0 {
        assert(a =~= b);
    }
}

proof fn lemma_lex_transitive(a: Seq<int>, b: Seq<int>, c: Seq<int>, o: Ordering)
    requires
        o != Ordering::Equal,
        lex_order(a, b) == o,
        lex_order(b, c) == o,
    ensures
        lex_order(a, c) == o,
    decreases a.len(),
{
    if a.len() > 0 && b.len() > 0 && c.len() > 0 && a[0] == b[0] && b[0] == c[0] {
        lemma_lex_transitive(a.drop_first(), b.drop_first(), c.drop_first(), o);
    }
}

/// Swapping the arguments of the version order gives the opposite ordering.
pub proof fn lemma_version_order_opposite(a: Seq<char>, b: Seq<char>)
    ensures
        version_order(a, b) == opposite(version_order(b, a)),
{
    lemma_lex_opposite(part_ints(version_parts_of(a)), part_ints(version_parts_of(b)));
    lemma_lex_opposite(char_codes(a), char_codes(b));
}

/// Two version texts are equal in the version order exactly when they are
/// the same text.
pub proof fn lemma_version_order_equal(a: Seq<char>, b: Seq<char>)
    ensures
        version_order(a, b) == Ordering::Equal <==> a == b,
{
    lemma_lex_equal(part_ints(version_parts_of(a)), part_ints(version_parts_of(b)));
    lemma_lex_equal(char_codes(a), char_codes(b));
    if char_codes(a) == char_codes(b) {
        lemma_char_codes_injective(a, b);
    }
}

/// The version order is transitive.
pub proof fn lemma_version_order_transitive(a: Seq<char>, b: Seq<char>, c: Seq<char>, o: Ordering)
    requires
        version_order(a, b) == o,
        version_order(b, c) == o,
    ensures
        version_order(a, c) == o,
{
    let pa = part_ints(version_parts_of(a));
    let pb = part_ints(version_parts_of(b));
    let pc = part_ints(version_parts_of(c));
    lemma_lex_equal(pa, pb);
    lemma_lex_equal(pb, pc);
    lemma_lex_equal(pa, pc);
    lemma_version_order_equal(a, b);
    lemma_version_order_equal(b, c);
    if o != Ordering::Equal {
        if lex_order(pa, pb) == o && lex_order(pb, pc) == o {
            lemma_lex_transitive(pa, pb, pc, o);
        } else if lex_order(pa, pb) == o {
            assert(pb == pc);
        } else if lex_order(pb, pc) == o {
            assert(pa == pb);
        } else {
            assert(pa == pb && pb == pc);
            lemma_lex_transitive(char_codes(a), char_codes(b), char_codes(c), o);
        }
    }
}

/// `newer` is a strict total order on version texts.
pub proof fn lemma_newer_total(a: Seq<char>, b: Seq<char>)
    ensures
        !newer(a, a),
        a != b ==> (newer(a, b) <==> !newer(b, a)),
{
    lemma_version_order_equal(a, a);
    lemma_version_order_equal(a, b);
    lemma_version_order_opposite(a, b);
}

/// `newer` is transitive.
pub proof fn lemma_newer_transitive(a: Seq<char>, b: Seq<char>, c: Seq<char>)
    requires
        newer(a, b),
        newer(b, c),
    ensures
        newer(a, c),
{
    lemma_version_order_transitive(a, b, c, Ordering::Greater);
}

fn compare_parts(a: &Vec<u32>, b: &Vec<u32>) -> (result: Ordering)
    ensures
        result == lex_order(part_ints(a@), part_ints(b@)),
{
    let ghost pa = part_ints(a@);
    let ghost pb = part_ints(b@);
    let mut i: usize = 0;
    let ghost mut k: int = 0;
    assert(pa.skip(0) =~= pa);
    assert(pb.skip(0) =~= pb);
    while i < a.len() && i < b.len()
        invariant
            k == i,
            i <= a.len(),
            i <= b.len(),
            pa == part_ints(a@),
            pb == part_ints(b@),
            lex_order(pa, pb) == lex_order(pa.skip(k), pb.skip(k)),
        decreases a.len() - i,
    {
        assert(pa.skip(k)[0] == pa[k]);
        assert(pb.skip(k)[0] == pb[k]);
        if a[i] < b[i] {
            return Ordering::Less;
        }
        if a[i] > b[i] {
            return Ordering::Greater;
        }
        assert(pa.skip(k).drop_first() =~= pa.skip(k + 1));
        assert(pb.skip(k).drop_first() =~= pb.skip(k + 1));
        i = i + 1;
        proof {
            k = k + 1;
        }
    }
    if i < a.len() {
        Ordering::Greater
    } else if i < b.len() {
        Ordering::Less
    } else {
        Ordering::Equal
    }
}

fn compare_chars(a: &Vec<char>, b: &Vec<char>) -> (result: Ordering)
    ensures
        result == lex_order(char_codes(a@), char_codes(b@)),
{
    let ghost pa = char_codes(a@);
    let ghost pb = char_codes(b@);
    let mut i: usize = 0;
    let ghost mut k: int = 0;
    assert(pa.skip(0) =~= pa);
    assert(pb.skip(0) =~= pb);
    while i < a.len() && i < b.len()
        invariant
            k == i,
            i <= a.len(),
            i <= b.len(),
            pa == char_codes(a@),
            pb == char_codes(b@),
            lex_order(pa, pb) == lex_order(pa.skip(k), pb.skip(k)),
        decreases a.len() - i,
    {
        assert(pa.skip(k)[0] == pa[k]);
        assert(pb.skip(k)[0] == pb[k]);
        if a[i] < b[i] {
            return Ordering::Less;
        }
        if a[i] > b[i] {
            return Ordering::Greater;
        }
        assert(pa.skip(k).drop_first() =~= pa.skip(k + 1));
        assert(pb.skip(k).drop_first() =~= pb.skip(k + 1));
        i = i + 1;
        proof {
            k = k + 1;
        }
    }
    if i < a.len() {
        Ordering::Greater
    } else if i < b.len() {
        Ordering::Less
    } else {
        Ordering::Equal
    }
}

/// Orders two version texts as `version_order` describes.
pub fn compare_versions(left: &str, right: &str) -> (result: Ordering)
    ensures
        result == version_order(left@, right@),
{
    let left_parts = version_parts(left);
    let right_parts = version_parts(right);
    match compare_parts(&left_parts, &right_parts) {
        Ordering::Equal => {
            let left_chars = chars_of(left);
            let right_chars = chars_of(right);
            compare_chars(&left_chars, &right_chars)
        },
        other => other,
    }
}

/// Whether `left` is the newer of two version texts.
pub fn is_newer(left: &str, right: &str) -> (result: bool)
    ensures
        result == newer(left@, right@),
{
    match compare_versions(left, right) {
        Ordering::Greater => true,
        _ => false,
    }
}

} // verus!
