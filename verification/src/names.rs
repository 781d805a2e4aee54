//! Filename sanitization and collision avoidance: every stored file gets a
//! name made only of ASCII letters, digits, `.`, `-` and `_`, and a name that
//! is already taken in the target directory is replaced by the first free
//! numbered variant `stem_1.ext`, `stem_2.ext`, ...

use vstd::prelude::*;
use crate::text::{dec_digits, is_allowed_char, lemma_dec_digits_injective, lemma_dec_digits_shape,
    push_char, u64_to_string};
use vstd::string::*;

verus! {

/// The sanitization predicate as a reusable closure value, so that every
/// mention of the filter denotes one and the same function.
pub open spec fn allowed_pred() -> spec_fn(char) -> bool {
    |c: char| is_allowed_char(c)
}

/// The characters of `s` that are allowed in a stored filename, in order.
pub open spec fn sanitize_core(s: Seq<char>) -> Seq<char> {
    s.filter(allowed_pred())
}

/// The placeholder used when sanitization strips a name to nothing.
pub open spec fn fallback_name() -> Seq<char> {
    "file"@
}

/// What `sanitize_filename` returns: the allowed characters of the raw name,
/// or the fixed placeholder if none survive.
pub open spec fn sanitized_name_spec(s: Seq<char>) -> Seq<char> {
    if sanitize_core(s).len() == 0 {
        fallback_name()
    } else {
        sanitize_core(s)
    }
}

/// Index of the last `.` of `s`; meaningful only when `s` has a dot.
pub open spec fn last_dot(s: Seq<char>) -> int
    decreases s.len(),
{
    if s.len() == 0 {
        0
    } else if s.last() == '.' {
        s.len() - 1
    } else {
        last_dot(s.drop_last())
    }
}

/// Whether `s` contains a `.`.
pub open spec fn has_dot(s: Seq<char>) -> bool {
    exists|i: int| 0 <= i < s.len() && s[i] == '.'
}

/// Where a name splits into stem and extension: at its last dot, or at its
/// end if it has none. The extension part keeps its leading dot.
pub open spec fn split_point(s: Seq<char>) -> int {
    if has_dot(s) {
        last_dot(s)
    } else {
        s.len() as int
    }
}

/// The stem of a name: everything before the last dot.
pub open spec fn stem_of(s: Seq<char>) -> Seq<char> {
    s.subrange(0, split_point(s))
}

/// The extension of a name including its leading dot, or empty.
pub open spec fn suffix_of(s: Seq<char>) -> Seq<char> {
    s.subrange(split_point(s), s.len() as int)
}

/// The `i`-th collision-avoidance variant of a name: `stem_i.ext`.
pub open spec fn candidate_spec(name: Seq<char>, i: nat) -> Seq<char> {
    stem_of(name) + seq!['_'] + dec_digits(i) + suffix_of(name)
}

/// The views of a vector of names.
pub open spec fn seq_views(ss: Seq<String>) -> Seq<Seq<char>> {
    ss.map_values(|s: String| s@)
}

/// `i` is the first free variant index of `name` against `taken`: every
/// smaller index from 1 on is taken, `i` itself is not.
pub open spec fn first_free_index(taken: Seq<Seq<char>>, name: Seq<char>, i: nat) -> bool {
    &&& !taken.contains(candidate_spec(name, i))
    &&& forall|m: nat| 1 <= m < i ==> taken.contains(#[trigger] candidate_spec(name, m))
}

/// What collision resolution returns for `name` against the taken names: the
/// name itself if free, else its first free numbered variant.
pub open spec fn is_first_free(taken: Seq<Seq<char>>, name: Seq<char>, r: Seq<char>) -> bool {
    if !taken.contains(name) {
        r == name
    } else {
        exists|i: nat|
            1 <= i && #[trigger] first_free_index(taken, name, i) && r == candidate_spec(name, i)
    }
}

/// A name fit to be stored: nonempty and made only of allowed characters.
pub open spec fn valid_stored_name(s: Seq<char>) -> bool {
    s.len() > 0 && forall|k: int| 0 <= k < s.len() ==> is_allowed_char(#[trigger] s[k])
}

/// The split point lies within the name.
pub proof fn lemma_split_point_range(s: Seq<char>)
    ensures
        0 <= split_point(s) <= s.len(),
    decreases s.len(),
{
    if s.len() > 0 && s.last() != '.' {
        lemma_split_point_range(s.drop_last());
        if has_dot(s) {
            if !has_dot(s.drop_last()) {
                let i = choose|i: int| 0 <= i < s.len() && s[i] == '.';
                assert(i < s.len() - 1 ==> s.drop_last()[i] == '.');
                assert(false);
            }
            assert(last_dot(s) == last_dot(s.drop_last()));
        }
    }
}

/// Stem and extension together are exactly the name.
pub proof fn lemma_split_parts_len(s: Seq<char>)
    ensures
        stem_of(s).len() + suffix_of(s).len() == s.len(),
{
    lemma_split_point_range(s);
}

/// A numbered variant is never the name itself: it is strictly longer.
pub proof fn lemma_candidate_ne_name(name: Seq<char>, i: nat)
    ensures
        candidate_spec(name, i) != name,
        candidate_spec(name, i).len() >= name.len() + 2,
{
    lemma_split_parts_len(name);
    lemma_dec_digits_shape(i);
}

/// Distinct variant indices give distinct names.
pub proof fn lemma_candidate_injective(name: Seq<char>, i: nat, j: nat)
    requires
        i != j,
    ensures
        candidate_spec(name, i) != candidate_spec(name, j),
{
    let st = stem_of(name);
    let su = suffix_of(name);
    let di = dec_digits(i);
    let dj = dec_digits(j);
    if candidate_spec(name, i) == candidate_spec(name, j) {
        assert(candidate_spec(name, i).len() == st.len() + 1 + di.len() + su.len());
        assert(candidate_spec(name, j).len() == st.len() + 1 + dj.len() + su.len());
        assert(di.len() == dj.len());
        assert forall|k: int| 0 <= k < di.len() implies di[k] == dj[k] by {
            assert(candidate_spec(name, i)[st.len() + 1 + k] == di[k]);
            assert(candidate_spec(name, j)[st.len() + 1 + k] == dj[k]);
        }
        assert(di =~= dj);
        lemma_dec_digits_injective(i, j);
        assert(false);
    }
}

/// A variant of an all-allowed, nonempty name is itself all-allowed and
/// nonempty: the stem and extension keep their characters, and the inserted
/// `_` and digits are allowed.
pub proof fn lemma_candidate_allowed(name: Seq<char>, i: nat)
    requires
        forall|k: int| 0 <= k < name.len() ==> is_allowed_char(#[trigger] name[k]),
    ensures
        candidate_spec(name, i).len() > 0,
        forall|k: int|
            0 <= k < candidate_spec(name, i).len() ==> is_allowed_char(
                #[trigger] candidate_spec(name, i)[k],
            ),
{
    let c = candidate_spec(name, i);
    let st = stem_of(name);
    let su = suffix_of(name);
    let d = dec_digits(i);
    lemma_split_point_range(name);
    lemma_dec_digits_shape(i);
    assert forall|k: int| 0 <= k < c.len() implies is_allowed_char(c[k]) by {
        if k < st.len() {
            assert(c[k] == name[k]);
        } else if k == st.len() {
            assert(c[k] == '_');
        } else if k < st.len() + 1 + d.len() {
            assert(c[k] == d[k - st.len() - 1]);
        } else {
            assert(c[k] == su[k - st.len() - 1 - d.len()]);
            assert(su[k - st.len() - 1 - d.len()] == name[k - 1 - d.len()]);
        }
    }
}

/// Whether this character may appear in a stored filename.
pub fn is_allowed(c: char) -> (r: bool)
    ensures
        r == is_allowed_char(c),
{
    let u = c as u32;
    (48 <= u && u <= 57) || (65 <= u && u <= 90) || (97 <= u && u <= 122) || u == 46 || u == 45
        || u == 95
}

/// Strips every character that is not an ASCII letter, digit, `.`, `-` or
/// `_`; a name with nothing left falls back to a fixed placeholder. The
/// result is never empty and contains only allowed characters.
pub fn sanitize_filename(raw: &str) -> (r: String)
    ensures
        r@ == sanitized_name_spec(raw@),
        r@.len() > 0,
        forall|k: int| 0 <= k < r@.len() ==> is_allowed_char(#[trigger] r@[k]),
{
    let len = raw.unicode_len();
    let mut out = String::new();
    let mut n: usize = 0;
    let mut k: usize = 0;
    while k < len
        invariant
            k <= len,
            len == raw@.len(),
            out@ == sanitize_core(raw@.subrange(0, k as int)),
            n == out@.len(),
        decreases len - k,
    {
        let c = raw.get_char(k);
        proof {
            let pre = raw@.subrange(0, k as int);
            let ext = raw@.subrange(0, k + 1 as int);
            assert(ext.drop_last() =~= pre);
            assert(ext.last() == raw@[k as int]);
            reveal(Seq::filter);
        }
        if is_allowed(c) {
            push_char(&mut out, c);
            assert(out@ =~= sanitize_core(raw@.subrange(0, k + 1 as int)));
            n = n + 1;
        } else {
            assert(out@ =~= sanitize_core(raw@.subrange(0, k + 1 as int)));
        }
        k = k + 1;
    }
    assert(raw@.subrange(0, len as int) =~= raw@);
    if n == 0 {
        let f = "file".to_owned();
        proof {
            reveal_strlit("file");
            assert(f@.len() == 4);
            assert forall|m: int| 0 <= m < f@.len() implies is_allowed_char(f@[m]) by {
                if m == 0 {
                    assert(f@[0] == 'f');
                } else if m == 1 {
                    assert(f@[1] == 'i');
                } else if m == 2 {
                    assert(f@[2] == 'l');
                } else {
                    assert(f@[3] == 'e');
                }
            }
        }
        f
    } else {
        proof {
            broadcast use vstd::seq_lib::group_filter_ensures;

            assert(forall|k: int|
                0 <= k < out@.len() ==> allowed_pred()(#[trigger] out@[k]));
        }
        out
    }
}

/// Index where `name` splits into stem and extension.
fn find_split(name: &String) -> (p: usize)
    ensures
        p == split_point(name@),
{
    let s = name.as_str();
    let len = s.unicode_len();
    let mut j: usize = len;
    while j > 0
        invariant
            j <= len,
            len == name@.len(),
            s@ == name@,
            forall|m: int| j <= m < len ==> name@[m] != '.',
        decreases j,
    {
        j = j - 1;
        let c = s.get_char(j);
        if c == '.' {
            proof {
                lemma_last_dot_at(name@, j as int);
            }
            return j;
        }
    }
    proof {
        if has_dot(name@) {
            let i = choose|i: int| 0 <= i < name@.len() && name@[i] == '.';
            assert(false);
        }
    }
    len
}

/// If `s[k]` is a dot and no later character is, the last dot is at `k`.
proof fn lemma_last_dot_at(s: Seq<char>, k: int)
    requires
        0 <= k < s.len(),
        s[k] == '.',
        forall|m: int| k < m < s.len() ==> s[m] != '.',
    ensures
        has_dot(s),
        last_dot(s) == k,
        split_point(s) == k,
    decreases s.len(),
{
    if k == s.len() - 1 {
    } else {
        assert(s.last() != '.');
        assert(s.drop_last()[k] == '.');
        lemma_last_dot_at(s.drop_last(), k);
    }
}

/// Builds the `i`-th numbered variant of `name`: `stem_i.ext`.
pub fn make_candidate(name: &String, i: u64) -> (r: String)
    ensures
        r@ == candidate_spec(name@, i as nat),
{
    proof {
        lemma_split_point_range(name@);
    }
    let s = name.as_str();
    let len = s.unicode_len();
    let p = find_split(name);
    let stem = s.substring_char(0, p);
    let suffix = s.substring_char(p, len);
    let mut out = stem.to_owned();
    push_char(&mut out, '_');
    let num = u64_to_string(i);
    out.append(num.as_str());
    out.append(suffix);
    proof {
        assert(out@ =~= candidate_spec(name@, i as nat));
    }
    out
}

/// Whether one of the names in `v` reads `n`.
fn contains_name(v: &Vec<String>, n: &String) -> (b: bool)
    ensures
        b == seq_views(v@).contains(n@),
{
    let mut k: usize = 0;
    while k < v.len()
        invariant
            k <= v.len(),
            forall|m: int| 0 <= m < k ==> seq_views(v@)[m] != n@,
        decreases v.len() - k,
    {
        if v[k].eq(n) {
            assert(seq_views(v@)[k as int] == n@);
            return true;
        }
        k = k + 1;
    }
    false
}

/// Picks the name a new file is stored under, given the names already taken
/// in the directory: `name` itself when free, otherwise the first variant
/// `stem_i.ext` (probing `i` = 1, 2, ...) that is free. Sanitized names stay
/// nonempty and made of allowed characters.
pub fn resolve_unique_name(existing: &Vec<String>, name: &String) -> (r: String)
    requires
        existing@.len() < usize::MAX,
    ensures
        is_first_free(seq_views(existing@), name@, r@),
        (name@.len() > 0 && (forall|k: int|
            0 <= k < name@.len() ==> is_allowed_char(#[trigger] name@[k]))) ==> (r@.len() > 0
            && forall|k: int| 0 <= k < r@.len() ==> is_allowed_char(#[trigger] r@[k])),
{
    let ghost taken = seq_views(existing@);
    if !contains_name(existing, name) {
        return name.clone();
    }
    let mut i: usize = 1;
    loop
        invariant
            1 <= i <= existing@.len() + 1,
            existing@.len() < usize::MAX,
            taken == seq_views(existing@),
            taken.contains(name@),
            forall|m: nat| 1 <= m < i ==> taken.contains(#[trigger] candidate_spec(name@, m)),
        decreases existing@.len() + 1 - i,
    {
        let c = make_candidate(name, i as u64);
        if !contains_name(existing, &c) {
            proof {
                assert(first_free_index(taken, name@, i as nat));
                lemma_candidate_allowed_if(name@, i as nat);
            }
            return c;
        }
        proof {
            assert(taken.contains(candidate_spec(name@, i as nat)));
            lemma_probe_bound(taken, name@, i as nat);
            assert(taken.len() == existing@.len());
        }
        i = i + 1;
    }
}

/// Helper: restate `lemma_candidate_allowed` under an implication, so the
/// caller's conditional postcondition follows directly.
proof fn lemma_candidate_allowed_if(name: Seq<char>, i: nat)
    ensures
        (name.len() > 0 && (forall|k: int|
            0 <= k < name.len() ==> is_allowed_char(#[trigger] name[k]))) ==> (candidate_spec(
            name,
            i,
        ).len() > 0 && forall|k: int|
            0 <= k < candidate_spec(name, i).len() ==> is_allowed_char(
                #[trigger] candidate_spec(name, i)[k],
            )),
{
    if name.len() > 0 && (forall|k: int|
        0 <= k < name.len() ==> is_allowed_char(#[trigger] name[k])) {
        lemma_candidate_allowed(name, i);
    }
}

/// The names a run of uploads is stored under when every upload declares the
/// same sanitized `name` into a directory that starts empty: the first keeps
/// `name`, the k-th (k >= 1 conflicts so far) gets the variant with suffix k.
pub open spec fn repeated_upload_names(name: Seq<char>, n: nat) -> Seq<Seq<char>> {
    Seq::new(n, |t: int| if t == 0 { name } else { candidate_spec(name, t as nat) })
}

/// N uploads all declaring the same sanitized name into a directory that
/// holds neither that name nor any of its numbered variants land on N
/// pairwise distinct paths, and the numeric suffixes are assigned in
/// strictly increasing order starting at 1 for the second conflicting name:
/// the j-th upload resolves, against the preexisting names plus those the
/// previous uploads created, to exactly the j-th entry of
/// `repeated_upload_names`. An initially empty directory is the case
/// `taken0 == Seq::empty()`.
pub proof fn lemma_repeated_uploads(taken0: Seq<Seq<char>>, name: Seq<char>, n: nat)
    requires
        !taken0.contains(name),
        forall|i: nat| 1 <= i ==> !taken0.contains(#[trigger] candidate_spec(name, i)),
    ensures
        repeated_upload_names(name, n).no_duplicates(),
        forall|j: int|
            0 <= j < n ==> is_first_free(
                taken0 + repeated_upload_names(name, n).subrange(0, j),
                name,
                #[trigger] repeated_upload_names(name, n)[j],
            ),
{
    let s = repeated_upload_names(name, n);
    assert forall|p: int, q: int| 0 <= p < q < n implies s[p] != s[q] by {
        if p == 0 {
            lemma_candidate_ne_name(name, q as nat);
        } else {
            lemma_candidate_injective(name, p as nat, q as nat);
        }
    }
    assert forall|j: int|
        0 <= j < n implies is_first_free(taken0 + s.subrange(0, j), name, s[j]) by {
        let taken = taken0 + s.subrange(0, j);
        if j == 0 {
            assert(!taken.contains(name)) by {
                if taken.contains(name) {
                    let w = choose|w: int| 0 <= w < taken.len() && taken[w] == name;
                    assert(taken0[w] == name);
                    assert(taken0.contains(name));
                }
            }
        } else {
            assert(taken[taken0.len() as int] == name);
            assert(taken.contains(name));
            assert(!taken.contains(candidate_spec(name, j as nat))) by {
                if taken.contains(candidate_spec(name, j as nat)) {
                    let w = choose|w: int|
                        0 <= w < taken.len() && taken[w] == candidate_spec(name, j as nat);
                    if w < taken0.len() {
                        assert(taken0.contains(candidate_spec(name, j as nat)));
                    } else if w == taken0.len() {
                        lemma_candidate_ne_name(name, j as nat);
                    } else {
                        lemma_candidate_injective(name, (w - taken0.len()) as nat, j as nat);
                    }
                }
            }
            assert forall|m: nat| 1 <= m < j implies taken.contains(
                #[trigger] candidate_spec(name, m),
            ) by {
                assert(taken[taken0.len() + m as int] == candidate_spec(name, m));
            }
            assert(first_free_index(taken, name, j as nat));
            assert(s[j] == candidate_spec(name, j as nat));
        }
    }
}

/// If variants 1 through `i` of a name are all taken, the taken list has at
/// least `i` entries: the variants are pairwise distinct.
proof fn lemma_probe_bound(taken: Seq<Seq<char>>, name: Seq<char>, i: nat)
    requires
        forall|m: nat| 1 <= m <= i ==> taken.contains(#[trigger] candidate_spec(name, m)),
    ensures
        i <= taken.to_set().len(),
        taken.to_set().len() <= taken.len(),
{
    broadcast use vstd::set::group_set_axioms;

    let cs = Seq::new(i, |t: int| candidate_spec(name, (t + 1) as nat));
    assert forall|p: int, q: int| 0 <= p < q < cs.len() implies cs[p] != cs[q] by {
        lemma_candidate_injective(name, (p + 1) as nat, (q + 1) as nat);
    }
    assert(cs.no_duplicates());
    cs.unique_seq_to_set();
    assert forall|x: Seq<char>| cs.to_set().contains(x) implies taken.to_set().contains(x) by {
        let t = choose|t: int| 0 <= t < cs.len() && cs[t] == x;
        assert(taken.contains(candidate_spec(name, (t + 1) as nat)));
        let w = choose|w: int| 0 <= w < taken.len() && taken[w] == x;
        assert(taken.to_set().contains(taken[w]));
    }
    vstd::set_lib::lemma_len_subset(cs.to_set(), taken.to_set());
    taken.lemma_cardinality_of_set();
}

} // verus!
