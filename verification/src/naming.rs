//! Collision-free destination names for stored copies.
//!
//! The first candidate for a stored copy is the source file's own name.
//! While a candidate is already taken, the next one is formed from the
//! name with every trailing `.pdf` suffix stripped, an underscore, a
//! decimal counter, and a fresh `.pdf` suffix: `paper.pdf`, `paper_1.pdf`,
//! `paper_2.pdf`, and so on. Distinct counters give distinct candidates,
//! so among the first `n + 1` candidates at least one avoids any `n`
//! taken names: allocation always succeeds and picks the first free
//! candidate.

use vstd::prelude::*;
use vstd::seq_lib::*;
use vstd::set_lib::*;
use vstd::string::*;

verus! {

broadcast use vstd::seq_lib::seq_to_set_is_finite;

/// The decimal digit character for `d` (`d < 10`).
pub open spec fn digit_char(d: nat) -> char {
    if d == 0 {
        '0'
    } else if d == 1 {
        '1'
    } else if d == 2 {
        '2'
    } else if d == 3 {
        '3'
    } else if d == 4 {
        '4'
    } else if d == 5 {
        '5'
    } else if d == 6 {
        '6'
    } else if d == 7 {
        '7'
    } else if d == 8 {
        '8'
    } else {
        '9'
    }
}

/// The decimal rendering of `n`, most significant digit first, without
/// leading zeros (`0` renders as `"0"`).
pub open spec fn dec_of(n: nat) -> Seq<char>
    decreases n,
{
    if n < 10 {
        seq![digit_char(n)]
    } else {
        dec_of(n / 10).push(digit_char(n % 10))
    }
}

proof fn lemma_dec_of_len(n: nat)
    ensures
        dec_of(n).len() >= 1,
        n >= 10 ==> dec_of(n).len() >= 2,
    decreases n,
{
    if n >= 10 {
        lemma_dec_of_len(n / 10);
    }
}

/// Distinct numbers render to distinct decimal strings.
proof fn lemma_dec_of_injective(a: nat, b: nat)
    requires
        dec_of(a) == dec_of(b),
    ensures
        a == b,
    decreases a,
{
    lemma_dec_of_len(a);
    lemma_dec_of_len(b);
    if a < 10 && b < 10 {
        assert(dec_of(a)[0] == digit_char(a));
        assert(dec_of(b)[0] == digit_char(b));
        assert(a == b);
    } else if a < 10 {
        assert(dec_of(a).len() == 1);
        assert(false);
    } else if b < 10 {
        assert(dec_of(b).len() == 1);
        assert(false);
    } else {
        assert(dec_of(a).last() == digit_char(a % 10));
        assert(dec_of(b).last() == digit_char(b % 10));
        assert(a % 10 == b % 10);
        assert(dec_of(a).drop_last() =~= dec_of(a / 10));
        assert(dec_of(b).drop_last() =~= dec_of(b / 10));
        lemma_dec_of_injective(a / 10, b / 10);
        assert(a == (a / 10) * 10 + a % 10) by {
            vstd::arithmetic::div_mod::lemma_fundamental_div_mod(a as int, 10);
        }
        assert(b == (b / 10) * 10 + b % 10) by {
            vstd::arithmetic::div_mod::lemma_fundamental_div_mod(b as int, 10);
        }
    }
}

fn digit_str(d: u64) -> (r: &'static str)
    requires
        d < 10,
    ensures
        r@ == seq![digit_char(d as nat)],
{
    if d == 0 {
        proof {
            reveal_strlit("0");
            assert("0"@ =~= seq![digit_char(0nat)]);
        }
        "0"
    } else if d == 1 {
        proof {
            reveal_strlit("1");
            assert("1"@ =~= seq![digit_char(1nat)]);
        }
        "1"
    } else if d == 2 {
        proof {
            reveal_strlit("2");
            assert("2"@ =~= seq![digit_char(2nat)]);
        }
        "2"
    } else if d == 3 {
        proof {
            reveal_strlit("3");
            assert("3"@ =~= seq![digit_char(3nat)]);
        }
        "3"
    } else if d == 4 {
        proof {
            reveal_strlit("4");
            assert("4"@ =~= seq![digit_char(4nat)]);
        }
        "4"
    } else if d == 5 {
        proof {
            reveal_strlit("5");
            assert("5"@ =~= seq![digit_char(5nat)]);
        }
        "5"
    } else if d == 6 {
        proof {
            reveal_strlit("6");
            assert("6"@ =~= seq![digit_char(6nat)]);
        }
        "6"
    } else if d == 7 {
        proof {
            reveal_strlit("7");
            assert("7"@ =~= seq![digit_char(7nat)]);
        }
        "7"
    } else if d == 8 {
        proof {
            reveal_strlit("8");
            assert("8"@ =~= seq![digit_char(8nat)]);
        }
        "8"
    } else {
        proof {
            reveal_strlit("9");
            assert("9"@ =~= seq![digit_char(9nat)]);
        }
        "9"
    }
}

/// Renders `n` in decimal.
pub fn u64_to_dec(n: u64) -> (r: String)
    ensures
        r@ == dec_of(n as nat),
    decreases n,
{
    if n < 10 {
        String::from_str(digit_str(n))
    } else {
        let mut r = u64_to_dec(n / 10);
        r.append(digit_str(n % 10));
        proof {
            assert(r@ =~= dec_of(n as nat));
        }
        r
    }
}

/// True when the name ends in the `.pdf` suffix.
pub open spec fn ends_with_pdf(s: Seq<char>) -> bool {
    &&& s.len() >= 4
    &&& s[s.len() - 4] == '.'
    &&& s[s.len() - 3] == 'p'
    &&& s[s.len() - 2] == 'd'
    &&& s[s.len() - 1] == 'f'
}

/// The name with every trailing `.pdf` suffix removed.
pub open spec fn strip_pdf_suffixes(s: Seq<char>) -> Seq<char>
    decreases s.len(),
{
    if ends_with_pdf(s) {
        strip_pdf_suffixes(s.subrange(0, s.len() - 4))
    } else {
        s
    }
}

/// The stripped name is a prefix of the original, and what was removed,
/// if anything, begins with a dot.
proof fn lemma_strip_pdf_prefix(s: Seq<char>)
    ensures
        strip_pdf_suffixes(s).len() <= s.len(),
        strip_pdf_suffixes(s) =~= s.subrange(0, strip_pdf_suffixes(s).len() as int),
        strip_pdf_suffixes(s).len() == s.len() || s[strip_pdf_suffixes(s).len() as int] == '.',
    decreases s.len(),
{
    if ends_with_pdf(s) {
        let h = s.subrange(0, s.len() - 4);
        lemma_strip_pdf_prefix(h);
        assert(strip_pdf_suffixes(s) =~= s.subrange(0, strip_pdf_suffixes(s).len() as int));
    }
}

/// Candidate number `k` for a source named `base`: the name itself for
/// `k == 0`, and the suffixed form for `k >= 1`.
pub open spec fn candidate_name(base: Seq<char>, k: nat) -> Seq<char> {
    if k == 0 {
        base
    } else {
        strip_pdf_suffixes(base) + seq!['_'] + dec_of(k) + seq!['.', 'p', 'd', 'f']
    }
}

/// Distinct candidate numbers give distinct candidate names.
pub proof fn lemma_candidate_injective(base: Seq<char>, i: nat, j: nat)
    requires
        candidate_name(base, i) == candidate_name(base, j),
    ensures
        i == j,
{
    if i != j {
        let t = strip_pdf_suffixes(base);
        lemma_strip_pdf_prefix(base);
        if i == 0 || j == 0 {
            let k = if i == 0 { j } else { i };
            lemma_dec_of_len(k);
            let c = candidate_name(base, k);
            assert(c.len() == t.len() + 1 + dec_of(k).len() + 4);
            assert(c[t.len() as int] == '_');
            assert(base.len() > t.len());
            assert(base[t.len() as int] == '.');
            assert(false);
        } else {
            lemma_dec_of_len(i);
            lemma_dec_of_len(j);
            let ci = candidate_name(base, i);
            let cj = candidate_name(base, j);
            assert(ci.len() == t.len() + 1 + dec_of(i).len() + 4);
            assert(cj.len() == t.len() + 1 + dec_of(j).len() + 4);
            assert(dec_of(i).len() == dec_of(j).len());
            assert forall|m: int| 0 <= m < dec_of(i).len() implies dec_of(i)[m] == dec_of(j)[m] by {
                assert(ci[t.len() + 1 + m] == dec_of(i)[m]);
                assert(cj[t.len() + 1 + m] == dec_of(j)[m]);
            }
            assert(dec_of(i) =~= dec_of(j));
            lemma_dec_of_injective(i, j);
        }
    }
}

/// The views of a vector of names.
pub open spec fn name_views(v: Seq<String>) -> Seq<Seq<char>> {
    v.map_values(|s: String| s@)
}

/// Whether some name among `taken` reads `s`.
pub fn contains_name(taken: &Vec<String>, s: &String) -> (b: bool)
    ensures
        b == name_views(taken@).contains(s@),
{
    let n = taken.len();
    let mut i: usize = 0;
    while i < n
        invariant
            i <= n,
            n == taken@.len(),
            forall|j: int| 0 <= j < i ==> name_views(taken@)[j] != s@,
        decreases n - i,
    {
        if s.eq(&taken[i]) {
            proof {
                assert(name_views(taken@)[i as int] == s@);
            }
            return true;
        }
        i = i + 1;
    }
    proof {
        assert(forall|j: int|
            0 <= j < name_views(taken@).len() ==> name_views(taken@)[j] != s@);
    }
    false
}

/// Candidate number `k` for `base`, as a string.
pub fn candidate(base: &String, k: u64) -> (r: String)
    ensures
        r@ == candidate_name(base@, k as nat),
{
    if k == 0 {
        return base.clone();
    }
    let mut r = strip_pdf_suffix_all(base.as_str());
    r.append("_");
    let digits = u64_to_dec(k);
    r.append(digits.as_str());
    r.append(".pdf");
    proof {
        reveal_strlit("_");
        reveal_strlit(".pdf");
        assert("_"@ =~= seq!['_']);
        assert(".pdf"@ =~= seq!['.', 'p', 'd', 'f']);
        assert(r@ =~= candidate_name(base@, k as nat));
    }
    r
}

/// Removes every trailing `.pdf` suffix from the name.
pub fn strip_pdf_suffix_all(name: &str) -> (r: String)
    ensures
        r@ == strip_pdf_suffixes(name@),
    decreases name@.len(),
{
    let n = name.unicode_len();
    if n >= 4 {
        let c0 = name.get_char(n - 4);
        let c1 = name.get_char(n - 3);
        let c2 = name.get_char(n - 2);
        let c3 = name.get_char(n - 1);
        if c0 == '.' && c1 == 'p' && c2 == 'd' && c3 == 'f' {
            let head = name.substring_char(0, n - 4);
            return strip_pdf_suffix_all(head);
        }
    }
    name.to_owned()
}

/// What it means for `name` to be the allocated destination name: it is
/// candidate number `k`, it collides with no taken name, and every
/// earlier candidate is taken.
pub open spec fn allocated(base: Seq<char>, taken: Seq<Seq<char>>, name: Seq<char>, k: nat) -> bool {
    &&& name == candidate_name(base, k)
    &&& !taken.contains(name)
    &&& forall|j: nat| j < k ==> taken.contains(#[trigger] candidate_name(base, j))
}

/// Picks the first candidate name for `base` that collides with no name
/// in `taken`. The existence check is re-run against `taken` for each
/// candidate in turn, and the loop terminates because distinct candidates
/// are distinct names: at most `taken.len()` of them can be taken.
pub fn allocate_name(base: &String, taken: &Vec<String>) -> (r: String)
    ensures
        exists|k: nat| allocated(base@, name_views(taken@), r@, k),
{
    let n = taken.len();
    let ghost tset = name_views(taken@).to_set();
    proof {
        name_views(taken@).lemma_cardinality_of_set();
    }
    let mut k: u64 = 0;
    let ghost mut seen: Set<Seq<char>> = Set::empty();
    loop
        invariant
            n == taken@.len(),
            tset == name_views(taken@).to_set(),
            tset.finite(),
            tset.len() <= n,
            seen.finite(),
            seen.len() == k,
            seen.subset_of(tset),
            k <= n,
            forall|j: nat| j < k ==> name_views(taken@).contains(#[trigger] candidate_name(base@, j)),
            forall|c: Seq<char>|
                seen.contains(c) ==> exists|j: nat| j < k && c == candidate_name(base@, j),
            forall|j: nat| j < k ==> seen.contains(#[trigger] candidate_name(base@, j)),
        decreases n - k,
    {
        let cand = candidate(base, k);
        if !contains_name(taken, &cand) {
            proof {
                assert(allocated(base@, name_views(taken@), cand@, k as nat));
            }
            return cand;
        }
        proof {
            assert(!seen.contains(cand@)) by {
                if seen.contains(cand@) {
                    let j = choose|j: nat| j < k && cand@ == candidate_name(base@, j);
                    lemma_candidate_injective(base@, j, k as nat);
                    assert(false);
                }
            }
            assert(tset.contains(cand@));
            seen = seen.insert(cand@);
            lemma_len_subset(seen, tset);
        }
        k = k + 1;
    }
}

} // verus!
