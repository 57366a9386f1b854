//! Collision-free names: copy names of the form `stem(N)` and generic column
//! names of the form `Column N`.

use vstd::prelude::*;
use vstd::set_lib::{lemma_int_range, lemma_len_subset, lemma_map_size, set_int_range};
use crate::text::{
    chars_of, decimal, decimal_value, digit_value, is_digit,
    lemma_decimal_injective, push_decimal, string_from_chars,
};

verus! {

broadcast use vstd::seq_lib::group_seq_properties;

/// The number of digits at the end of `s`.
pub open spec fn trailing_digits(s: Seq<char>) -> nat
    decreases s.len(),
{
    if s.len() > 0 && is_digit(s.last()) {
        1 + trailing_digits(s.drop_last())
    } else {
        0
    }
}

/// Where the `(` of a trailing `(<digits>)` would stand in `name`.
pub open spec fn counter_open(name: Seq<char>) -> int {
    name.len() - 2 - trailing_digits(name.drop_last())
}

/// The digits of a trailing `(<digits>)` of `name`.
pub open spec fn counter_digits(name: Seq<char>) -> Seq<char> {
    name.subrange(counter_open(name) + 1, name.len() - 1)
}

/// Whether `name` ends in `(<digits>)`, with at least one digit, whose
/// value fits in 64 bits.
pub open spec fn has_counter(name: Seq<char>) -> bool {
    &&& name.len() >= 3
    &&& name.last() == ')'
    &&& trailing_digits(name.drop_last()) > 0
    &&& counter_open(name) >= 0
    &&& name[counter_open(name)] == '('
    &&& decimal_value(counter_digits(name)) <= u64::MAX
}

/// The part of `name` that copies are numbered after.
pub open spec fn copy_stem(name: Seq<char>) -> Seq<char> {
    if has_counter(name) {
        name.subrange(0, counter_open(name))
    } else {
        name
    }
}

/// The counter that `name` already carries (one when it carries none).
pub open spec fn copy_start(name: Seq<char>) -> nat {
    if has_counter(name) {
        decimal_value(counter_digits(name))
    } else {
        1
    }
}

/// The copy name `stem(k)`.
pub open spec fn copy_candidate(stem: Seq<char>, k: nat) -> Seq<char> {
    stem + seq!['('] + decimal(k) + seq![')']
}

/// `r` is the copy name of `name` that avoids `avoid`: `stem(k)` for the least
/// `k` above the name's own counter such that `stem(k)` is not in `avoid`.
pub open spec fn is_copy_name(name: Seq<char>, avoid: Seq<Seq<char>>, r: Seq<char>) -> bool {
    exists|k: nat|
        {
            &&& k > copy_start(name)
            &&& r == copy_candidate(copy_stem(name), k)
            &&& !avoid.contains(r)
            &&& forall|m: nat|
                copy_start(name) < m < k ==> avoid.contains(
                    #[trigger] copy_candidate(copy_stem(name), m),
                )
        }
}

/// The generic column name `Column n`.
pub open spec fn generic_name(n: nat) -> Seq<char> {
    seq!['C', 'o', 'l', 'u', 'm', 'n', ' '] + decimal(n)
}

/// `r` is `Column n` for the least `n >= start` whose name is not in `names`.
pub open spec fn is_generic_name(names: Seq<Seq<char>>, start: nat, r: Seq<char>) -> bool {
    exists|n: nat|
        {
            &&& n >= start
            &&& r == generic_name(n)
            &&& !names.contains(r)
            &&& forall|m: nat| start <= m < n ==> names.contains(#[trigger] generic_name(m))
        }
}

/// The copy name of `name` that avoids `avoid` (see `is_copy_name`).
pub open spec fn copy_name_of(name: Seq<char>, avoid: Seq<Seq<char>>) -> Seq<char> {
    choose|r: Seq<char>| is_copy_name(name, avoid, r)
}

/// The first free generic name from `start` on (see `is_generic_name`).
pub open spec fn generic_name_for(names: Seq<Seq<char>>, start: nat) -> Seq<char> {
    choose|r: Seq<char>| is_generic_name(names, start, r)
}

/// There is only one copy name of `name` that avoids `avoid`.
pub proof fn lemma_copy_name_unique(name: Seq<char>, avoid: Seq<Seq<char>>, r: Seq<char>)
    requires
        is_copy_name(name, avoid, r),
    ensures
        copy_name_of(name, avoid) == r,
{
    let r2 = copy_name_of(name, avoid);
    let k1 = choose|k: nat|
        {
            &&& k > copy_start(name)
            &&& r == copy_candidate(copy_stem(name), k)
            &&& !avoid.contains(r)
            &&& forall|m: nat|
                copy_start(name) < m < k ==> avoid.contains(
                    #[trigger] copy_candidate(copy_stem(name), m),
                )
        };
    let k2 = choose|k: nat|
        {
            &&& k > copy_start(name)
            &&& r2 == copy_candidate(copy_stem(name), k)
            &&& !avoid.contains(r2)
            &&& forall|m: nat|
                copy_start(name) < m < k ==> avoid.contains(
                    #[trigger] copy_candidate(copy_stem(name), m),
                )
        };
    if k1 < k2 {
        assert(avoid.contains(copy_candidate(copy_stem(name), k1)));
    } else if k2 < k1 {
        assert(avoid.contains(copy_candidate(copy_stem(name), k2)));
    }
}

/// There is only one first free generic name from `start` on.
pub proof fn lemma_generic_name_unique(names: Seq<Seq<char>>, start: nat, r: Seq<char>)
    requires
        is_generic_name(names, start, r),
    ensures
        generic_name_for(names, start) == r,
{
    let r2 = generic_name_for(names, start);
    let n1 = choose|n: nat|
        {
            &&& n >= start
            &&& r == generic_name(n)
            &&& !names.contains(r)
            &&& forall|m: nat| start <= m < n ==> names.contains(#[trigger] generic_name(m))
        };
    let n2 = choose|n: nat|
        {
            &&& n >= start
            &&& r2 == generic_name(n)
            &&& !names.contains(r2)
            &&& forall|m: nat| start <= m < n ==> names.contains(#[trigger] generic_name(m))
        };
    if n1 < n2 {
        assert(names.contains(generic_name(n1)));
    } else if n2 < n1 {
        assert(names.contains(generic_name(n2)));
    }
}

/// Pigeonhole: an injective run of names from `lo` to `hi`, all held in
/// `names`, is no longer than `names`.
proof fn lemma_run_bound(names: Seq<Seq<char>>, f: spec_fn(int) -> Seq<char>, lo: int, hi: int)
    requires
        lo <= hi,
        forall|m: int, n: int| lo <= m < hi && lo <= n < hi && #[trigger] f(m) == #[trigger] f(n) ==> m == n,
        forall|m: int| lo <= m < hi ==> names.contains(#[trigger] f(m)),
    ensures
        hi - lo <= names.len(),
{
    lemma_int_range(lo, hi);
    let x = set_int_range(lo, hi);
    let y = x.map(f);
    lemma_map_size(x, y, f);
    assert(y.subset_of(names.to_set()));
    names.lemma_cardinality_of_set();
    lemma_len_subset(y, names.to_set());
}

proof fn lemma_copy_candidate_injective(stem: Seq<char>, a: nat, b: nat)
    requires
        copy_candidate(stem, a) == copy_candidate(stem, b),
    ensures
        a == b,
{
    let ca = copy_candidate(stem, a);
    let cb = copy_candidate(stem, b);
    assert(ca.subrange(stem.len() + 1int, ca.len() - 1) =~= decimal(a));
    assert(cb.subrange(stem.len() + 1int, cb.len() - 1) =~= decimal(b));
    lemma_decimal_injective(a, b);
}

proof fn lemma_generic_name_injective(a: nat, b: nat)
    requires
        generic_name(a) == generic_name(b),
    ensures
        a == b,
{
    assert(generic_name(a).subrange(7, generic_name(a).len() as int) =~= decimal(a));
    assert(generic_name(b).subrange(7, generic_name(b).len() as int) =~= decimal(b));
    lemma_decimal_injective(a, b);
}

/// Whether one of `names` equals `name`.
pub fn contains_name(names: &Vec<String>, name: &String) -> (r: bool)
    ensures
        r == names.deep_view().contains(name@),
{
    let mut i: usize = 0;
    while i < names.len()
        invariant
            i <= names.len(),
            forall|j: int| 0 <= j < i ==> names.deep_view()[j] != name@,
        decreases names.len() - i,
    {
        if names[i] == *name {
            assert(names.deep_view()[i as int] == name@);
            return true;
        }
        i += 1;
    }
    false
}

/// A prefix of a digit string never reads as more than the whole string.
proof fn lemma_decimal_value_prefix(s: Seq<char>, p: int)
    requires
        0 <= p <= s.len(),
    ensures
        decimal_value(s.subrange(0, p)) <= decimal_value(s),
    decreases s.len(),
{
    if p < s.len() {
        assert(s.drop_last().subrange(0, p) =~= s.subrange(0, p));
        lemma_decimal_value_prefix(s.drop_last(), p);
    } else {
        assert(s.subrange(0, p) =~= s);
    }
}

/// Splits `name` into its copy stem, given by its length, and the counter it
/// carries.
fn split_counter(name: &Vec<char>) -> (r: (usize, u64))
    ensures
        r.0 <= name@.len(),
        name@.subrange(0, r.0 as int) == copy_stem(name@),
        r.1 as nat == copy_start(name@),
{
    let n = name.len();
    if n >= 2 && name[n - 1] == ')' {
        let ghost body = name@.drop_last();
        let mut j: usize = n - 1;
        while j > 0 && name[j - 1] >= '0' && name[j - 1] <= '9'
            invariant
                n == name@.len(),
                n >= 2,
                body == name@.subrange(0, n - 1),
                j <= n - 1,
                trailing_digits(body) == (n - 1 - j) + trailing_digits(name@.subrange(0, j as int)),
                forall|t: int| j <= t < n - 1 ==> is_digit(#[trigger] name@[t]),
            decreases j,
        {
            assert(name@.subrange(0, j as int).drop_last() =~= name@.subrange(0, j - 1));
            j -= 1;
        }
        assert(trailing_digits(name@.subrange(0, j as int)) == 0);
        assert(body =~= name@.subrange(0, n - 1));
        assert(counter_open(name@) == j - 1);
        if j >= 1 && j < n - 1 && name[j - 1] == '(' {
            let ghost digits = name@.subrange(j as int, n - 1);
            assert(counter_digits(name@) =~= digits);
            let mut v: u128 = 0;
            let mut fits = true;
            let mut i: usize = j;
            while i < n - 1 && fits
                invariant
                    n == name@.len(),
                    n >= 2,
                    1 <= j <= i <= n - 1,
                    digits == name@.subrange(j as int, n - 1),
                    forall|t: int| j <= t < n - 1 ==> is_digit(#[trigger] name@[t]),
                    fits ==> v == decimal_value(digits.subrange(0, i - j)),
                    fits ==> v <= u64::MAX,
                    !fits ==> decimal_value(digits.subrange(0, i - j)) > u64::MAX,
                decreases n - 1 - i,
            {
                let c = name[i];
                assert(is_digit(name@[i as int]));
                let d = (c as u32) - ('0' as u32);
                assert(digits.subrange(0, i + 1 - j).drop_last() =~= digits.subrange(0, i - j));
                assert(digits.subrange(0, i + 1 - j).last() == c);
                assert(d as nat == digit_value(c));
                let nv = v * 10 + d as u128;
                if nv > u64::MAX as u128 {
                    fits = false;
                } else {
                    v = nv;
                }
                i += 1;
            }
            if fits {
                assert(digits.subrange(0, i - j) =~= digits);
                return (j - 1, v as u64);
            } else {
                proof {
                    lemma_decimal_value_prefix(digits, i - j);
                }
            }
        }
    }
    assert(name@.subrange(0, n as int) =~= name@);
    (n, 1)
}

/// A copy name of `from_name` that is none of `from_vec`: the stem of the
/// name (the name without a trailing `(<digits>)`) followed by `(k)`, for the
/// least `k` above the name's own counter (one when it has none) that gives a
/// free name.
pub fn generate_nice_copy_name(from_name: &str, from_vec: Vec<String>) -> (r: String)
    ensures
        is_copy_name(from_name@, from_vec.deep_view(), r@),
        r@ == copy_name_of(from_name@, from_vec.deep_view()),
        !from_vec.deep_view().contains(r@),
{
    let name = chars_of(from_name);
    let (stem_len, start) = split_counter(&name);
    let mut stem: Vec<char> = Vec::new();
    let mut t: usize = 0;
    while t < stem_len
        invariant
            stem_len <= name@.len(),
            t <= stem_len,
            stem@ == name@.subrange(0, t as int),
        decreases stem_len - t,
    {
        stem.push(name[t]);
        t += 1;
    }
    let ghost avoid = from_vec.deep_view();
    let ghost f = |m: int| copy_candidate(stem@, m as nat);
    let mut k: u128 = start as u128 + 1;
    loop
        invariant
            stem@ == copy_stem(from_name@),
            start as nat == copy_start(from_name@),
            avoid == from_vec.deep_view(),
            f == (|m: int| copy_candidate(stem@, m as nat)),
            start < k,
            k - start - 1 <= avoid.len(),
            forall|m: nat| start < m < k ==> avoid.contains(#[trigger] copy_candidate(stem@, m)),
        decreases avoid.len() + start + 1 - k,
    {
        let mut cand = stem.clone();
        cand.push('(');
        push_decimal(k, &mut cand);
        cand.push(')');
        let s = string_from_chars(&cand);
        assert(s@ =~= copy_candidate(stem@, k as nat));
        if !contains_name(&from_vec, &s) {
            proof {
                lemma_copy_name_unique(from_name@, avoid, s@);
            }
            return s;
        }
        proof {
            assert forall|a: int, b: int|
                start + 1 <= a < k + 1 && start + 1 <= b < k + 1 && #[trigger] f(a) == #[trigger] f(
                    b,
                ) implies a == b by {
                lemma_copy_candidate_injective(stem@, a as nat, b as nat);
            }
            assert forall|m: int| start + 1 <= m < k + 1 implies avoid.contains(#[trigger] f(m)) by {
                assert(f(m) == copy_candidate(stem@, m as nat));
            }
            lemma_run_bound(avoid, f, start + 1, k + 1);
            assert(avoid.len() == from_vec@.len());
            assert(from_vec@.len() <= usize::MAX);
        }
        k += 1;
    }
}

/// `Column n` for the least `n >= start` whose name is not among `names`.
pub fn first_free_generic_name(names: &Vec<String>, start: usize) -> (r: String)
    ensures
        is_generic_name(names.deep_view(), start as nat, r@),
        r@ == generic_name_for(names.deep_view(), start as nat),
        !names.deep_view().contains(r@),
{
    let ghost avoid = names.deep_view();
    let ghost f = |m: int| generic_name(m as nat);
    let len = names.len();
    let mut n: u128 = start as u128;
    loop
        invariant
            avoid == names.deep_view(),
            avoid.len() == len,
            f == (|m: int| generic_name(m as nat)),
            start <= n,
            n - start <= avoid.len(),
            forall|m: nat| start <= m < n ==> avoid.contains(#[trigger] generic_name(m)),
        decreases avoid.len() + start - n,
    {
        let mut cand: Vec<char> = vec!['C', 'o', 'l', 'u', 'm', 'n', ' '];
        push_decimal(n, &mut cand);
        let s = string_from_chars(&cand);
        assert(s@ =~= generic_name(n as nat));
        if !contains_name(names, &s) {
            proof {
                lemma_generic_name_unique(avoid, start as nat, s@);
            }
            return s;
        }
        proof {
            assert forall|a: int, b: int|
                start <= a < n + 1 && start <= b < n + 1 && #[trigger] f(a) == #[trigger] f(
                    b,
                ) implies a == b by {
                lemma_generic_name_injective(a as nat, b as nat);
            }
            assert forall|m: int| start <= m < n + 1 implies avoid.contains(#[trigger] f(m)) by {
                assert(f(m) == generic_name(m as nat));
            }
            lemma_run_bound(avoid, f, start as int, n + 1);
        }
        n += 1;
    }
}

proof fn lemma_generic_walk(names: Seq<Seq<char>>, start: nat, n: nat)
    requires
        n >= start,
        forall|m: nat| start <= m < n ==> names.contains(#[trigger] generic_name(m)),
    ensures
        exists|r: Seq<char>| is_generic_name(names, start, r),
    decreases names.len() + start - n,
{
    let f = |m: int| generic_name(m as nat);
    assert forall|a: int, b: int|
        start <= a < n && start <= b < n && #[trigger] f(a) == #[trigger] f(b) implies a == b by {
        lemma_generic_name_injective(a as nat, b as nat);
    }
    assert forall|m: int| start <= m < n implies names.contains(#[trigger] f(m)) by {
        assert(f(m) == generic_name(m as nat));
    }
    lemma_run_bound(names, f, start as int, n as int);
    if !names.contains(generic_name(n)) {
        assert(is_generic_name(names, start, generic_name(n)));
    } else {
        assert forall|a: int, b: int|
            start <= a < n + 1 && start <= b < n + 1 && #[trigger] f(a) == #[trigger] f(b) implies a == b by {
            lemma_generic_name_injective(a as nat, b as nat);
        }
        assert forall|m: int| start <= m < n + 1 implies names.contains(#[trigger] f(m)) by {
            assert(f(m) == generic_name(m as nat));
        }
        lemma_run_bound(names, f, start as int, n + 1int);
        lemma_generic_walk(names, start, n + 1);
    }
}

/// A first free generic name always exists.
pub proof fn lemma_generic_name_exists(names: Seq<Seq<char>>, start: nat)
    ensures
        is_generic_name(names, start, generic_name_for(names, start)),
        !names.contains(generic_name_for(names, start)),
{
    lemma_generic_walk(names, start, start);
}

proof fn lemma_copy_walk(name: Seq<char>, avoid: Seq<Seq<char>>, k: nat)
    requires
        k > copy_start(name),
        forall|m: nat| copy_start(name) < m < k ==> avoid.contains(#[trigger] copy_candidate(copy_stem(name), m)),
    ensures
        exists|r: Seq<char>| is_copy_name(name, avoid, r),
    decreases avoid.len() + copy_start(name) + 1 - k,
{
    let stem = copy_stem(name);
    let lo = copy_start(name) + 1;
    let f = |m: int| copy_candidate(stem, m as nat);
    assert forall|a: int, b: int|
        lo <= a < k && lo <= b < k && #[trigger] f(a) == #[trigger] f(b) implies a == b by {
        lemma_copy_candidate_injective(stem, a as nat, b as nat);
    }
    assert forall|m: int| lo <= m < k implies avoid.contains(#[trigger] f(m)) by {
        assert(f(m) == copy_candidate(stem, m as nat));
    }
    lemma_run_bound(avoid, f, lo as int, k as int);
    if !avoid.contains(copy_candidate(stem, k)) {
        assert(is_copy_name(name, avoid, copy_candidate(stem, k)));
    } else {
        assert forall|a: int, b: int|
            lo <= a < k + 1 && lo <= b < k + 1 && #[trigger] f(a) == #[trigger] f(b) implies a == b by {
            lemma_copy_candidate_injective(stem, a as nat, b as nat);
        }
        assert forall|m: int| lo <= m < k + 1 implies avoid.contains(#[trigger] f(m)) by {
            assert(f(m) == copy_candidate(stem, m as nat));
        }
        lemma_run_bound(avoid, f, lo as int, k + 1int);
        lemma_copy_walk(name, avoid, k + 1);
    }
}

/// A copy name that avoids a given list always exists, and is not in it.
pub proof fn lemma_copy_name_exists(name: Seq<char>, avoid: Seq<Seq<char>>)
    ensures
        is_copy_name(name, avoid, copy_name_of(name, avoid)),
        !avoid.contains(copy_name_of(name, avoid)),
{
    lemma_copy_walk(name, avoid, copy_start(name) + 1);
}

} // verus!
