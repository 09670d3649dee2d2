//! The version of the metadata tool, read from its `--version` text.
use crate::guard::{all_in, CharClass};
use crate::text::{after, before, chars_of, fields, fields_exec, find_exec, slice_of};
use vstd::prelude::*;

verus! {

/// The number an all-digit text spells.
pub open spec fn digits_value(p: Seq<char>) -> nat
    decreases p.len(),
{
    if p.len() == 0 {
        0
    } else {
        digits_value(p.drop_last()) * 10 + ((p.last() as u32) - ('0' as u32)) as nat
    }
}

/// A version part: the number it spells when it is a non-empty run of ASCII
/// digits that fits in `u32`, else 0.
pub open spec fn version_part(p: Seq<char>) -> u64 {
    if p.len() > 0 && all_in(p, CharClass::Digit) && digits_value(p) <= u32::MAX {
        digits_value(p) as u64
    } else {
        0
    }
}

/// `(major, minor)` of a tool's version text: its second whitespace field
/// (`0.0.0` when there is none), read as `major.minor[.rest]`.
pub open spec fn tool_version_of(text: Seq<char>) -> (u64, u64) {
    let f = fields(text);
    let v = if f.len() >= 2 {
        f[1]
    } else {
        "0.0.0"@
    };
    (
        version_part(before(v, "."@)),
        match after(v, "."@) {
            Some(r) => version_part(before(r, "."@)),
            None => 0,
        },
    )
}

proof fn lemma_digits_grow(p: Seq<char>, i: int)
    requires
        0 <= i <= p.len(),
        all_in(p, CharClass::Digit),
    ensures
        digits_value(p.subrange(0, i)) <= digits_value(p),
    decreases p.len(),
{
    if i < p.len() {
        let q = p.drop_last();
        assert(all_in(q, CharClass::Digit)) by {
            assert forall|j: int| 0 <= j < q.len() implies crate::guard::in_class(#[trigger] q[j], CharClass::Digit) by {
                assert(q[j] == p[j]);
            }
        }
        lemma_digits_grow(q, i);
        assert(q.subrange(0, i) =~= p.subrange(0, i));
    } else {
        assert(p.subrange(0, i) =~= p);
    }
}

fn version_part_exec(p: &Vec<char>) -> (r: u64)
    ensures
        r == version_part(p@),
{
    let n = p.len();
    if n == 0 {
        return 0;
    }
    let mut acc: u64 = 0;
    let mut i: usize = 0;
    while i < n
        invariant
            n == p@.len(),
            i <= n,
            acc == digits_value(p@.subrange(0, i as int)),
            acc <= u32::MAX,
            all_in(p@.subrange(0, i as int), CharClass::Digit),
        decreases n - i,
    {
        let c = p[i];
        if !('0' <= c && c <= '9') {
            assert(!crate::guard::in_class(p@[i as int], CharClass::Digit));
            return 0;
        }
        let ghost q = p@.subrange(0, i + 1);
        assert(q.drop_last() =~= p@.subrange(0, i as int));
        assert(all_in(q, CharClass::Digit)) by {
            assert forall|j: int| 0 <= j < q.len() implies crate::guard::in_class(#[trigger] q[j], CharClass::Digit) by {
                if j < i {
                    assert(q[j] == p@.subrange(0, i as int)[j]);
                }
            }
        }
        let d: u64 = ((c as u32) - ('0' as u32)) as u64;
        let next: u64 = acc * 10 + d;
        if next > 4294967295 {
            proof {
                if all_in(p@, CharClass::Digit) {
                    lemma_digits_grow(p@, i + 1);
                }
            }
            return 0;
        }
        acc = next;
        i += 1;
    }
    assert(p@.subrange(0, n as int) =~= p@);
    acc
}

/// `(major, minor)` of a tool's version text, such as `cargo 1.80.0 (...)`.
pub fn tool_version(text: &str) -> (r: (u64, u64))
    ensures
        r == tool_version_of(text@),
{
    let f = fields_exec(&chars_of(text));
    let v: Vec<char> = if f.len() >= 2 {
        f[1].clone()
    } else {
        chars_of("0.0.0")
    };
    let dot = chars_of(".");
    let n = v.len();
    match find_exec(&v, &dot) {
        None => (version_part_exec(&v), 0),
        Some(i) => {
            let major = version_part_exec(&slice_of(&v, 0, i));
            let rest = slice_of(&v, i + dot.len(), n);
            let minor = match find_exec(&rest, &dot) {
                Some(j) => version_part_exec(&slice_of(&rest, 0, j)),
                None => version_part_exec(&rest),
            };
            (major, minor)
        },
    }
}

} // verus!
