//! Minecraft version numbers: their numeric parts and the order in which
//! versions are listed.

use std::cmp::Ordering;
use vstd::prelude::*;
use crate::text::chars_of;

verus! {

/// An ASCII decimal digit.
pub open spec fn is_digit(c: char) -> bool {
    '0' <= c && c <= '9'
}

/// The value of an ASCII decimal digit.
pub open spec fn digit_value(c: char) -> nat {
    (c as int - '0' as int) as nat
}

/// The part that a finished run of digits contributes: its value, when it
/// fits in a `u32`, and nothing otherwise.
pub open spec fn finished_part(run: Option<nat>) -> Seq<u32> {
    match run {
        Some(v) => if v <= u32::MAX { seq![v as u32] } else { Seq::empty() },
        None => Seq::empty(),
    }
}

/// The parts of `s`, where `run` is the value of the run of digits that
/// stands just before `s` (if any).
pub open spec fn parts_after(s: Seq<char>, run: Option<nat>) -> Seq<u32>
    decreases s.len(),
{
    if s.len() == 0 {
        finished_part(run)
    } else if is_digit(s[0]) {
        let v = match run {
            Some(v) => v * 10 + digit_value(s[0]),
            None => digit_value(s[0]),
        };
        parts_after(s.drop_first(), Some(v))
    } else {
        finished_part(run) + parts_after(s.drop_first(), None)
    }
}

/// The numeric parts of a version text: each maximal run of ASCII digits,
/// read as a decimal number, in order; a run whose value does not fit in a
/// `u32` is left out.
pub open spec fn version_parts_of(s: Seq<char>) -> Seq<u32> {
    parts_after(s, None)
}

/// The numeric values of a sequence of parts.
pub open spec fn part_ints(s: Seq<u32>) -> Seq<int> {
    s.map_values(|x: u32| x as int)
}

/// The character codes of a text.
pub open spec fn char_codes(s: Seq<char>) -> Seq<int> {
    s.map_values(|c: char| c as int)
}

/// Numeric parts of a version text, as `version_parts_of` describes them.
pub fn version_parts(value: &str) -> (parts: Vec<u32>)
    ensures
        parts@ == version_parts_of(value@),
{
    let chars = chars_of(value);
    let n = chars.len();
    let mut parts: Vec<u32> = Vec::new();
    // the run in progress, with its value capped at 2^32
    let mut run: Option<u64> = None;
    let ghost mut run_spec: Option<nat> = None;
    let mut i: usize = 0;
    proof {
        assert(value@.skip(0) =~= value@);
        assert(parts@ + parts_after(value@, None) =~= parts_after(value@, None));
    }
    while i < n
        invariant
            n == chars@.len(),
            chars@ == value@,
            i <= n,
            version_parts_of(value@) == parts@ + parts_after(value@.skip(i as int), run_spec),
            run is None <==> run_spec is None,
            run is Some ==> run->0 <= 0x1_0000_0000,
            run is Some ==> (run->0 == 0x1_0000_0000 <==> run_spec->0 >= 0x1_0000_0000),
            run is Some && run->0 < 0x1_0000_0000 ==> run->0 == run_spec->0,
        decreases n - i,
    {
        let c = chars[i];
        let ghost rest = value@.skip(i as int);
        proof {
            assert(rest[0] == c);
            assert(rest.drop_first() =~= value@.skip(i + 1));
        }
        if '0' <= c && c <= '9' {
            let d: u64 = (c as u32 - '0' as u32) as u64;
            let ghost next_spec: nat = match run_spec {
                Some(v) => v * 10 + digit_value(c),
                None => digit_value(c),
            };
            let next: u64 = match run {
                Some(v) => if v >= 0x1_0000_0000 {
                    0x1_0000_0000
                } else {
                    let w = v * 10 + d;
                    if w >= 0x1_0000_0000 { 0x1_0000_0000 } else { w }
                },
                None => d,
            };
            run = Some(next);
            proof {
                run_spec = Some(next_spec);
            }
        } else {
            let ghost before = parts@;
            match run {
                Some(v) => {
                    if v < 0x1_0000_0000 {
                        parts.push(v as u32);
                    }
                },
                None => {},
            }
            proof {
                assert(finished_part(run_spec) + parts_after(value@.skip(i + 1), None)
                    == parts_after(rest, run_spec));
                assert(parts@ =~= before + finished_part(run_spec));
            }
            run = None;
            proof {
                run_spec = None;
            }
        }
        i = i + 1;
    }
    proof {
        assert(value@.skip(n as int) =~= Seq::<char>::empty());
    }
    match run {
        Some(v) => {
            if v < 0x1_0000_0000 {
                parts.push(v as u32);
            }
        },
        None => {},
    }
    proof {
        assert(version_parts_of(value@) =~= parts@);
    }
    parts
}

/// Texts with the same character codes are the same text.
pub proof fn lemma_char_codes_injective(a: Seq<char>, b: Seq<char>)
    requires
        char_codes(a) == char_codes(b),
    ensures
        a == b,
{
    assert(char_codes(a).len() == a.len());
    assert(char_codes(b).len() == b.len());
    assert forall|i: int| 0 <= i < a.len() implies a[i] == b[i] by {
        assert(char_codes(a)[i] == char_codes(b)[i]);
        let x = a[i];
        let y = b[i];
        assert(char_codes(a)[i] == x as int);
        assert(char_codes(b)[i] == y as int);
        assert(x as int == y as int);
        assert(x == y);
    }
    assert(a =~= b);
}

} // verus!
