//! Whether an app version is still supported: versions are numbers
//! separated by dots, compared number by number from the left.
use vstd::prelude::*;
use crate::text::{split_spec, split_char, trim_spec, trim};
use crate::number::{parse_i64_spec, parse_i64};

verus! {

/// The dot-separated parts of a version text, white space around it removed.
pub open spec fn version_parts(s: Seq<char>) -> Seq<Seq<char>> {
    split_spec(trim_spec(s), '.')
}

/// The first `n` parts of a version text are numbers.
pub open spec fn parts_parse(parts: Seq<Seq<char>>, n: int) -> bool {
    forall|i: int| 0 <= i < n && i < parts.len() ==> (#[trigger] parse_i64_spec(parts[i])) is Some
}

/// The number of part `i`.
pub open spec fn part_number(parts: Seq<Seq<char>>, i: int) -> i64 {
    parse_i64_spec(parts[i])->0
}

/// Comparing from part `i` on: the first part where the two differ decides
/// (`a`'s number below `b`'s); where none differs before one of them ends,
/// the answer is `true`.
pub open spec fn compatible_from(a: Seq<Seq<char>>, b: Seq<Seq<char>>, i: int) -> bool
    decreases a.len() - i,
{
    if i < 0 || i >= a.len() || i >= b.len() {
        true
    } else if part_number(a, i) != part_number(b, i) {
        part_number(a, i) < part_number(b, i)
    } else {
        compatible_from(a, b, i + 1)
    }
}

/// Whether `version` is compatible with the oldest supported version.
pub open spec fn compatible(oldest: Seq<char>, version: Seq<char>) -> bool {
    compatible_from(version_parts(oldest), version_parts(version), 0)
}

/// The parts that the comparison reads are numbers: those of `oldest` up
/// to one past the parts of `version`, those of `version` up to the parts
/// of `oldest`.
pub open spec fn compatible_readable(oldest: Seq<char>, version: Seq<char>) -> bool {
    let a = version_parts(oldest);
    let b = version_parts(version);
    &&& parts_parse(a, b.len() + 1int)
    &&& parts_parse(b, a.len() as int)
}

/// `"true"` where `version_str` is compatible with the oldest supported
/// version, else `"false"`.
pub fn compatibile(oldest_supported_version: &str, version_str: &str) -> (s: String)
    requires
        compatible_readable(oldest_supported_version@, version_str@),
    ensures
        s@ == (if compatible(oldest_supported_version@, version_str@) {
            "true"@
        } else {
            "false"@
        }),
{
    let old_trimmed = trim(oldest_supported_version);
    let test_trimmed = trim(version_str);
    let supported = split_char(old_trimmed.as_str(), '.');
    let test = split_char(test_trimmed.as_str(), '.');
    let ghost a = version_parts(oldest_supported_version@);
    let ghost b = version_parts(version_str@);
    let mut result: Option<bool> = None;
    let mut i: usize = 0;
    while i < supported.len()
        invariant
            supported@.len() == a.len(),
            forall|j: int| 0 <= j < a.len() ==> #[trigger] supported@[j]@ == a[j],
            test@.len() == b.len(),
            forall|j: int| 0 <= j < b.len() ==> #[trigger] test@[j]@ == b[j],
            parts_parse(a, b.len() + 1int),
            parts_parse(b, a.len() as int),
            i <= a.len(),
            i <= b.len(),
            compatible_from(a, b, 0) == match result {
                Some(r) => r,
                None => compatible_from(a, b, i as int),
            },
        ensures
            compatible_from(a, b, 0) == match result {
                Some(r) => r,
                None => true,
            },
        decreases a.len() - i,
    {
        assert(supported@[i as int]@ == a[i as int]);
        let x = parse_i64(supported[i].as_str()).unwrap();
        if i >= test.len() {
            break;
        }
        assert(test@[i as int]@ == b[i as int]);
        let y = parse_i64(test[i].as_str()).unwrap();
        if result.is_none() && x != y {
            result = Some(x < y);
        }
        i = i + 1;
    }
    let r = match result {
        Some(r) => r,
        None => true,
    };
    proof {
        reveal_strlit("true");
        reveal_strlit("false");
    }
    if r {
        "true".to_owned()
    } else {
        "false".to_owned()
    }
}

/// Every version is compatible with itself.
pub proof fn lemma_compatible_reflexive(v: Seq<char>)
    ensures
        compatible(v, v),
{
    lemma_compatible_from_reflexive(version_parts(v), 0);
}

proof fn lemma_compatible_from_reflexive(a: Seq<Seq<char>>, i: int)
    ensures
        compatible_from(a, a, i),
    decreases a.len() - i,
{
    if 0 <= i < a.len() {
        lemma_compatible_from_reflexive(a, i + 1);
    }
}

/// Where two versions differ in a part that both have, exactly one of them
/// is compatible with the other.
pub proof fn lemma_compatible_antisymmetric(v: Seq<char>, w: Seq<char>, k: int)
    requires
        0 <= k < version_parts(v).len(),
        k < version_parts(w).len(),
        part_number(version_parts(v), k) != part_number(version_parts(w), k),
    ensures
        compatible(v, w) != compatible(w, v),
{
    lemma_compatible_from_antisymmetric(version_parts(v), version_parts(w), 0, k);
}

proof fn lemma_compatible_from_antisymmetric(a: Seq<Seq<char>>, b: Seq<Seq<char>>, i: int, k: int)
    requires
        0 <= i <= k < a.len(),
        k < b.len(),
        part_number(a, k) != part_number(b, k),
    ensures
        compatible_from(a, b, i) != compatible_from(b, a, i),
    decreases k - i,
{
    if part_number(a, i) == part_number(b, i) {
        lemma_compatible_from_antisymmetric(a, b, i + 1, k);
    }
}

/// Whether the comparison of the two versions can read all the parts it
/// needs.
pub fn versions_readable(oldest_supported_version: &str, version_str: &str) -> (b: bool)
    ensures
        b == compatible_readable(oldest_supported_version@, version_str@),
{
    let old_trimmed = trim(oldest_supported_version);
    let test_trimmed = trim(version_str);
    let a = split_char(old_trimmed.as_str(), '.');
    let b = split_char(test_trimmed.as_str(), '.');
    let ghost pa = version_parts(oldest_supported_version@);
    let ghost pb = version_parts(version_str@);
    let mut i: usize = 0;
    while i < a.len()
        invariant
            pa == version_parts(oldest_supported_version@),
            pb == version_parts(version_str@),
            a@.len() == pa.len(),
            forall|j: int| 0 <= j < pa.len() ==> #[trigger] a@[j]@ == pa[j],
            b@.len() == pb.len(),
            i <= a@.len(),
            forall|j: int| 0 <= j < i && j < pb.len() + 1 ==> (#[trigger] parse_i64_spec(pa[j])) is Some,
        decreases a@.len() - i,
    {
        if i <= b.len() {
            assert(a@[i as int]@ == pa[i as int]);
            if parse_i64(a[i].as_str()).is_none() {
                assert(parse_i64_spec(pa[i as int]) is None);
                assert(!parts_parse(pa, pb.len() + 1int));
                return false;
            }
        }
        i = i + 1;
    }
    let mut k: usize = 0;
    while k < b.len()
        invariant
            pa == version_parts(oldest_supported_version@),
            pb == version_parts(version_str@),
            b@.len() == pb.len(),
            forall|j: int| 0 <= j < pb.len() ==> #[trigger] b@[j]@ == pb[j],
            a@.len() == pa.len(),
            parts_parse(pa, pb.len() + 1int),
            k <= b@.len(),
            forall|j: int| 0 <= j < k && j < pa.len() ==> (#[trigger] parse_i64_spec(pb[j])) is Some,
        decreases b@.len() - k,
    {
        if k < a.len() {
            assert(b@[k as int]@ == pb[k as int]);
            if parse_i64(b[k].as_str()).is_none() {
                assert(parse_i64_spec(pb[k as int]) is None);
                assert(!parts_parse(pb, pa.len() as int));
                return false;
            }
        }
        k = k + 1;
    }
    true
}

} // verus!
