//! Profile snapshots: where a snapshot's files live, the newest-first order
//! in which snapshots are listed, and which automatic snapshots are pruned.

use vstd::prelude::*;
use crate::text::{chars_of, str_equals, strings_view};
use crate::paths::{
    is_platform_separator, root_modelled, join_modelled, join_path, join_spec, opt_str_view, snapshots_dir,
    state_dir_spec,
};

verus! {

/// `a` sorts before `b` in code-point order, the order of `<` on `str`
/// (UTF-8 keeps the order of code points).
pub open spec fn text_lt(a: Seq<char>, b: Seq<char>) -> bool
    decreases a.len(),
{
    if a.len() == 0 {
        b.len() > 0
    } else if b.len() == 0 {
        false
    } else if a[0] != b[0] {
        a[0] < b[0]
    } else {
        text_lt(a.drop_first(), b.drop_first())
    }
}

/// No string sorts before itself.
pub proof fn lemma_text_lt_irreflexive(a: Seq<char>)
    ensures
        !text_lt(a, a),
    decreases a.len(),
{
    if a.len() > 0 {
        lemma_text_lt_irreflexive(a.drop_first());
    }
}

/// The order is transitive.
pub proof fn lemma_text_lt_transitive(a: Seq<char>, b: Seq<char>, c: Seq<char>)
    requires
        text_lt(a, b),
        text_lt(b, c),
    ensures
        text_lt(a, c),
    decreases a.len(),
{
    if a.len() > 0 && b.len() > 0 && c.len() > 0 && a[0] == b[0] && b[0] == c[0] {
        lemma_text_lt_transitive(a.drop_first(), b.drop_first(), c.drop_first());
    }
}

/// Of two different strings, one sorts before the other.
pub proof fn lemma_text_lt_total(a: Seq<char>, b: Seq<char>)
    requires
        a != b,
    ensures
        text_lt(a, b) || text_lt(b, a),
    decreases a.len(),
{
    if a.len() > 0 && b.len() > 0 && a[0] == b[0] {
        if a.drop_first() == b.drop_first() {
            assert(a =~= seq![a[0]] + a.drop_first());
            assert(b =~= seq![b[0]] + b.drop_first());
        }
        lemma_text_lt_total(a.drop_first(), b.drop_first());
    } else if a.len() == 0 && b.len() == 0 {
        assert(a =~= b);
    }
}

/// Whether `a` sorts before `b` (`a < b` on strings).
pub fn text_less(a: &str, b: &str) -> (r: bool)
    ensures
        r == text_lt(a@, b@),
{
    let x = chars_of(a);
    let y = chars_of(b);
    let mut i: usize = 0;
    let mut differs = false;
    proof {
        assert(a@.skip(0) =~= a@);
        assert(b@.skip(0) =~= b@);
    }
    while !differs && i < x.len() && i < y.len()
        invariant
            i <= x.len(),
            i <= y.len(),
            x@ == a@,
            y@ == b@,
            text_lt(a@, b@) == text_lt(a@.skip(i as int), b@.skip(i as int)),
            differs ==> (i < x.len() && i < y.len() && x@[i as int] != y@[i as int]),
        decreases x.len() - i + (if differs { 0int } else { 1int }),
    {
        if x[i] != y[i] {
            differs = true;
        } else {
            proof {
                assert(a@.skip(i as int).drop_first() =~= a@.skip(i + 1));
                assert(b@.skip(i as int).drop_first() =~= b@.skip(i + 1));
            }
            i = i + 1;
        }
    }
    if differs {
        x[i] < y[i]
    } else if i == x.len() {
        i < y.len()
    } else {
        false
    }
}

/// With snapshots stamped `s` (their creation times, in the order in which
/// they were read), snapshot `x` is listed before snapshot `y`: it is newer,
/// or it has the same stamp and was read first (the sort is stable).
pub open spec fn listed_before(s: Seq<Seq<char>>, x: int, y: int) -> bool {
    text_lt(s[y], s[x]) || (s[x] == s[y] && x < y)
}

/// The indices `o` list the first `k` snapshots, each once, newest first.
pub open spec fn newest_first_prefix(s: Seq<Seq<char>>, o: Seq<usize>, k: int) -> bool {
    &&& o.len() == k
    &&& forall|i: int| 0 <= i < o.len() ==> o[i] < k
    &&& forall|i: int, j: int| 0 <= i < j < o.len() ==> o[i] != o[j]
    &&& forall|i: int, j: int|
        0 <= i < j < o.len() ==> #[trigger] listed_before(s, o[i] as int, o[j] as int)
}

/// The indices `o` list every snapshot once, newest first.
pub open spec fn is_newest_first(s: Seq<Seq<char>>, o: Seq<usize>) -> bool {
    newest_first_prefix(s, o, s.len() as int)
}

proof fn lemma_insert_newest_first(s: Seq<Seq<char>>, o: Seq<usize>, k: int, p: int)
    requires
        0 <= k < s.len(),
        k < usize::MAX,
        newest_first_prefix(s, o, k),
        0 <= p <= o.len(),
        forall|t: int| 0 <= t < p ==> !text_lt(s[o[t] as int], s[k]),
        p < o.len() ==> text_lt(s[o[p] as int], s[k]),
    ensures
        newest_first_prefix(s, o.insert(p, k as usize), k + 1),
{
    let n = o.insert(p, k as usize);
    assert forall|i: int| 0 <= i < n.len() implies n[i] == (if i < p {
        o[i]
    } else if i == p {
        k as usize
    } else {
        o[i - 1]
    }) by {}
    assert forall|i: int, j: int| 0 <= i < j < n.len() implies #[trigger] listed_before(
        s,
        n[i] as int,
        n[j] as int,
    ) by {
        if j < p {
            assert(listed_before(s, o[i] as int, o[j] as int));
        } else if j == p {
            let x = o[i] as int;
            if s[x] != s[k] {
                lemma_text_lt_total(s[x], s[k]);
            }
        } else if i == p {
            let y = o[j - 1] as int;
            if j - 1 > p {
                assert(listed_before(s, o[p] as int, y));
                if text_lt(s[y], s[o[p] as int]) {
                    lemma_text_lt_transitive(s[y], s[o[p] as int], s[k]);
                }
            }
        } else if i < p {
            assert(listed_before(s, o[i] as int, o[j - 1] as int));
        } else {
            assert(listed_before(s, o[i - 1] as int, o[j - 1] as int));
        }
    }
}

/// The order in which snapshots are listed: newest first by creation stamp
/// (compared as strings), ties in the order given. Returns the indices into
/// `created_at`.
pub fn newest_first(created_at: &Vec<String>) -> (o: Vec<usize>)
    ensures
        is_newest_first(strings_view(created_at@), o@),
{
    let ghost s = strings_view(created_at@);
    let n = created_at.len();
    let mut o: Vec<usize> = Vec::new();
    let mut k: usize = 0;
    while k < n
        invariant
            n == created_at.len(),
            s == strings_view(created_at@),
            s.len() == n,
            k <= n,
            newest_first_prefix(s, o@, k as int),
        decreases n - k,
    {
        let mut p: usize = 0;
        let mut found = false;
        while !found && p < o.len()
            invariant
                n == created_at.len(),
                s == strings_view(created_at@),
                s.len() == n,
                k < n,
                newest_first_prefix(s, o@, k as int),
                p <= o.len(),
                forall|t: int| 0 <= t < p ==> !text_lt(s[o@[t] as int], s[k as int]),
                found ==> (p < o.len() && text_lt(s[o@[p as int] as int], s[k as int])),
            decreases o.len() - p + (if found { 0int } else { 1int }),
        {
            let q = o[p];
            if text_less(created_at[q].as_str(), created_at[k].as_str()) {
                found = true;
            } else {
                p = p + 1;
            }
        }
        proof {
            lemma_insert_newest_first(s, o@, k as int, p as int);
        }
        o.insert(p, k);
        k = k + 1;
    }
    o
}

/// How many automatic snapshots are kept; older ones are pruned.
pub const MAX_AUTO_SNAPSHOTS: usize = 24;

/// The snapshots of kind `auto` among those `o` lists, in the same order.
pub open spec fn autos_in(o: Seq<usize>, kinds: Seq<Seq<char>>) -> Seq<usize>
    decreases o.len(),
{
    if o.len() == 0 {
        Seq::empty()
    } else {
        let rest = autos_in(o.drop_last(), kinds);
        if kinds[o.last() as int] == "auto"@ {
            rest.push(o.last())
        } else {
            rest
        }
    }
}

/// The automatic snapshots beyond the newest `MAX_AUTO_SNAPSHOTS`, given
/// the order `o` in which snapshots are listed.
pub open spec fn pruned_autos(o: Seq<usize>, kinds: Seq<Seq<char>>) -> Seq<usize> {
    let autos = autos_in(o, kinds);
    if autos.len() <= MAX_AUTO_SNAPSHOTS {
        Seq::empty()
    } else {
        autos.skip(MAX_AUTO_SNAPSHOTS as int)
    }
}

proof fn lemma_autos_in_are_auto(o: Seq<usize>, kinds: Seq<Seq<char>>)
    ensures
        forall|i: int|
            0 <= i < autos_in(o, kinds).len() ==> kinds[#[trigger] autos_in(o, kinds)[i] as int]
                == "auto"@,
    decreases o.len(),
{
    if o.len() > 0 {
        let rest = autos_in(o.drop_last(), kinds);
        lemma_autos_in_are_auto(o.drop_last(), kinds);
        assert forall|i: int| 0 <= i < autos_in(o, kinds).len() implies kinds[#[trigger] autos_in(
            o,
            kinds,
        )[i] as int] == "auto"@ by {
            if i < rest.len() {
                assert(autos_in(o, kinds)[i] == rest[i]);
            }
        }
    }
}

/// Pruning keeps the newest automatic snapshots: at most
/// `MAX_AUTO_SNAPSHOTS` of them remain, the pruned ones are exactly those
/// listed after the kept ones, and only automatic snapshots are pruned.
pub proof fn law_prune_keeps_newest(o: Seq<usize>, kinds: Seq<Seq<char>>)
    ensures
        autos_in(o, kinds).len() - pruned_autos(o, kinds).len() <= MAX_AUTO_SNAPSHOTS,
        pruned_autos(o, kinds) == autos_in(o, kinds).subrange(
            autos_in(o, kinds).len() - pruned_autos(o, kinds).len(),
            autos_in(o, kinds).len() as int,
        ),
        forall|i: int|
            0 <= i < pruned_autos(o, kinds).len() ==> kinds[#[trigger] pruned_autos(o, kinds)[i] as int]
                == "auto"@,
{
    let a = autos_in(o, kinds);
    let p = pruned_autos(o, kinds);
    lemma_autos_in_are_auto(o, kinds);
    if a.len() <= MAX_AUTO_SNAPSHOTS {
        assert(a.subrange(a.len() as int, a.len() as int) =~= p);
    } else {
        assert(a.subrange(MAX_AUTO_SNAPSHOTS as int, a.len() as int) =~= p);
        assert forall|i: int| 0 <= i < p.len() implies kinds[#[trigger] p[i] as int] == "auto"@ by {
            assert(p[i] == a[i + MAX_AUTO_SNAPSHOTS]);
        }
    }
}

/// Which automatic snapshots to delete: with the snapshots listed in the
/// order `order` (indices into `kinds`), the automatic ones after the
/// newest `MAX_AUTO_SNAPSHOTS`, in listing order.
pub fn autos_past_limit(order: &Vec<usize>, kinds: &Vec<String>) -> (r: Vec<usize>)
    requires
        forall|i: int| 0 <= i < order.len() ==> order@[i] < kinds.len(),
    ensures
        r@ == pruned_autos(order@, strings_view(kinds@)),
{
    let ghost ks = strings_view(kinds@);
    let mut autos: Vec<usize> = Vec::new();
    let mut i: usize = 0;
    while i < order.len()
        invariant
            i <= order.len(),
            ks == strings_view(kinds@),
            ks.len() == kinds.len(),
            forall|j: int| 0 <= j < order.len() ==> order@[j] < kinds.len(),
            autos@ == autos_in(order@.subrange(0, i as int), ks),
        decreases order.len() - i,
    {
        let x = order[i];
        proof {
            let pre = order@.subrange(0, i + 1);
            assert(pre.drop_last() =~= order@.subrange(0, i as int));
            assert(pre.last() == x);
        }
        if str_equals(kinds[x].as_str(), "auto") {
            autos.push(x);
        }
        i = i + 1;
    }
    proof {
        assert(order@.subrange(0, order.len() as int) =~= order@);
    }
    let mut r: Vec<usize> = Vec::new();
    if autos.len() > MAX_AUTO_SNAPSHOTS {
        let mut j: usize = MAX_AUTO_SNAPSHOTS;
        while j < autos.len()
            invariant
                MAX_AUTO_SNAPSHOTS <= j <= autos.len(),
                r@ == autos@.subrange(MAX_AUTO_SNAPSHOTS as int, j as int),
            decreases autos.len() - j,
        {
            r.push(autos[j]);
            proof {
                assert(autos@.subrange(MAX_AUTO_SNAPSHOTS as int, j + 1) =~= autos@.subrange(
                    MAX_AUTO_SNAPSHOTS as int,
                    j as int,
                ).push(autos@[j as int]));
            }
            j = j + 1;
        }
    } else {
        proof {
            assert(r@ =~= Seq::<usize>::empty());
        }
    }
    r
}

proof fn lemma_newest_first_covers(s: Seq<Seq<char>>, o: Seq<usize>, v: int)
    requires
        is_newest_first(s, o),
        0 <= v < s.len(),
    ensures
        exists|j: int| 0 <= j < o.len() && o[j] == v,
{
    let m = o.map_values(|x: usize| x as int);
    assert(m.no_duplicates()) by {
        assert forall|i: int, j: int| 0 <= i < m.len() && 0 <= j < m.len() && i != j implies m[i]
            != m[j] by {
            if i < j {
                assert(o[i] != o[j]);
            } else {
                assert(o[j] != o[i]);
            }
        }
    }
    m.unique_seq_to_set();
    let range = vstd::set_lib::set_int_range(0, s.len() as int);
    vstd::set_lib::lemma_int_range(0, s.len() as int);
    assert(m.to_set().subset_of(range)) by {
        assert forall|x: int| m.to_set().contains(x) implies range.contains(x) by {
            let i = choose|i: int| 0 <= i < m.len() && m[i] == x;
            assert(o[i] < s.len());
        }
    }
    vstd::set_lib::lemma_len_subset(m.to_set(), range);
    vstd::set_lib::lemma_subset_equality(m.to_set(), range);
    assert(range.contains(v));
    assert(m.to_set().contains(v));
    let j = choose|j: int| 0 <= j < m.len() && m[j] == v;
    assert(o[j] == v);
}

proof fn lemma_listed_before_asymmetric(s: Seq<Seq<char>>, a: int, b: int)
    ensures
        !(listed_before(s, a, b) && listed_before(s, b, a)),
{
    if text_lt(s[b], s[a]) && text_lt(s[a], s[b]) {
        lemma_text_lt_transitive(s[a], s[b], s[a]);
    }
    lemma_text_lt_irreflexive(s[a]);
}

proof fn lemma_newest_first_prefix_equal(s: Seq<Seq<char>>, o1: Seq<usize>, o2: Seq<usize>, i: int)
    requires
        is_newest_first(s, o1),
        is_newest_first(s, o2),
        0 <= i <= s.len(),
    ensures
        forall|t: int| 0 <= t < i ==> o1[t] == o2[t],
    decreases i,
{
    if i > 0 {
        let k = i - 1;
        lemma_newest_first_prefix_equal(s, o1, o2, k);
        let a = o1[k];
        let b = o2[k];
        if a != b {
            lemma_newest_first_covers(s, o2, a as int);
            let j = choose|j: int| 0 <= j < o2.len() && o2[j] == a;
            if j < k {
                assert(o1[j] == a);
                assert(o1[j] != o1[k]);
            }
            assert(listed_before(s, b as int, a as int)) by {
                assert(listed_before(s, o2[k] as int, o2[j] as int));
            }
            lemma_newest_first_covers(s, o1, b as int);
            let j2 = choose|j2: int| 0 <= j2 < o1.len() && o1[j2] == b;
            if j2 < k {
                assert(o2[j2] == b);
                assert(o2[j2] != o2[k]);
            }
            assert(listed_before(s, a as int, b as int)) by {
                assert(listed_before(s, o1[k] as int, o1[j2] as int));
            }
            lemma_listed_before_asymmetric(s, a as int, b as int);
        }
    }
}

/// The listing order is determined by the stamps: two newest-first orders of
/// the same snapshots are the same order.
pub proof fn law_newest_first_unique(s: Seq<Seq<char>>, o1: Seq<usize>, o2: Seq<usize>)
    requires
        is_newest_first(s, o1),
        is_newest_first(s, o2),
    ensures
        o1 == o2,
{
    lemma_newest_first_prefix_equal(s, o1, o2, s.len() as int);
    assert(o1 =~= o2);
}

/// Which automatic snapshots to delete, given each snapshot's kind and
/// creation stamp: the automatic ones after the newest `MAX_AUTO_SNAPSHOTS`
/// in the newest-first listing (indices into the two vectors, in listing
/// order).
pub fn auto_snapshots_to_prune(kinds: &Vec<String>, created_at: &Vec<String>) -> (r: Vec<usize>)
    requires
        kinds.len() == created_at.len(),
    ensures
        forall|o: Seq<usize>| #[trigger]
            is_newest_first(strings_view(created_at@), o) ==> r@ == pruned_autos(
                o,
                strings_view(kinds@),
            ),
{
    let order = newest_first(created_at);
    let r = autos_past_limit(&order, kinds);
    proof {
        assert forall|o: Seq<usize>| #[trigger]
            is_newest_first(strings_view(created_at@), o) implies r@ == pruned_autos(
            o,
            strings_view(kinds@),
        ) by {
            law_newest_first_unique(strings_view(created_at@), order@, o);
        }
    }
    r
}

/// The snapshots directory joined with `name`.
pub open spec fn in_snapshots_dir(program_data: Option<Seq<char>>, sep: char, name: Seq<char>) -> Seq<
    char,
> {
    join_spec(join_spec(state_dir_spec(program_data, sep), sep, "snapshots"@), sep, name)
}

/// The metadata file of snapshot `id`: `<id>.toml` in the snapshots directory.
pub fn snapshot_meta_path(program_data: Option<&str>, sep: char, id: &str) -> (r: String)
    requires
        is_platform_separator(sep),
        root_modelled(opt_str_view(program_data), sep),
        join_modelled(join_spec(state_dir_spec(opt_str_view(program_data), sep), sep, "snapshots"@), sep, id@
            + ".toml"@),
    ensures
        r@ == in_snapshots_dir(opt_str_view(program_data), sep, id@ + ".toml"@),
{
    proof {
        crate::paths::lemma_dirs_modelled(opt_str_view(program_data), sep);
    }
    let dir = snapshots_dir(program_data, sep);
    let mut name = String::new();
    name.append(id);
    name.append(".toml");
    proof {
        assert(Seq::<char>::empty() + id@ =~= id@);
    }
    join_path(&dir, sep, name.as_str())
}

/// The profile copy kept with a snapshot: its `profile_file` in the
/// snapshots directory.
pub fn snapshot_profile_path(program_data: Option<&str>, sep: char, profile_file: &str) -> (r:
    String)
    requires
        is_platform_separator(sep),
        root_modelled(opt_str_view(program_data), sep),
        join_modelled(
            join_spec(state_dir_spec(opt_str_view(program_data), sep), sep, "snapshots"@),
            sep,
            profile_file@,
        ),
    ensures
        r@ == in_snapshots_dir(opt_str_view(program_data), sep, profile_file@),
{
    proof {
        crate::paths::lemma_dirs_modelled(opt_str_view(program_data), sep);
    }
    let dir = snapshots_dir(program_data, sep);
    join_path(&dir, sep, profile_file)
}

} // verus!
