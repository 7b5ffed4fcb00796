use vstd::prelude::*;

verus! {

/// Lexicographic order on character sequences, comparing code points.
pub open spec fn seq_le(a: Seq<char>, b: Seq<char>) -> bool
    decreases a.len(),
{
    if a.len() == 0 {
        true
    } else if b.len() == 0 {
        false
    } else if a[0] == b[0] {
        seq_le(a.drop_first(), b.drop_first())
    } else {
        a[0] < b[0]
    }
}

/// Strict form of the lexicographic order.
pub open spec fn seq_lt(a: Seq<char>, b: Seq<char>) -> bool {
    seq_le(a, b) && a != b
}

pub proof fn lemma_seq_le_refl(a: Seq<char>)
    ensures
        seq_le(a, a),
    decreases a.len(),
{
    if a.len() > 0 {
        lemma_seq_le_refl(a.drop_first());
    }
}

pub proof fn lemma_seq_le_total(a: Seq<char>, b: Seq<char>)
    ensures
        seq_le(a, b) || seq_le(b, a),
    decreases a.len(),
{
    if a.len() == 0 || b.len() == 0 {
    } else if a[0] == b[0] {
        lemma_seq_le_total(a.drop_first(), b.drop_first());
    } else {
        if a[0] < b[0] {
            assert(seq_le(a, b));
        } else {
            assert(b[0] < a[0]);
            assert(seq_le(b, a));
        }
    }
}

pub proof fn lemma_seq_le_antisym(a: Seq<char>, b: Seq<char>)
    requires
        seq_le(a, b),
        seq_le(b, a),
    ensures
        a == b,
    decreases a.len(),
{
    if a.len() == 0 {
        assert(b.len() == 0);
        assert(a =~= b);
    } else {
        assert(b.len() > 0);
        assert(a[0] == b[0]);
        lemma_seq_le_antisym(a.drop_first(), b.drop_first());
        assert(a.drop_first().len() == b.drop_first().len());
        assert(a.len() == b.len());
        assert forall|i: int| 0 <= i < a.len() implies a[i] == b[i] by {
            if i > 0 {
                assert(a[i] == a.drop_first()[i - 1]);
                assert(b[i] == b.drop_first()[i - 1]);
            }
        }
        assert(a =~= b);
    }
}

pub proof fn lemma_seq_le_trans(a: Seq<char>, b: Seq<char>, c: Seq<char>)
    requires
        seq_le(a, b),
        seq_le(b, c),
    ensures
        seq_le(a, c),
    decreases a.len(),
{
    if a.len() > 0 && b.len() > 0 && c.len() > 0 && a[0] == b[0] && b[0] == c[0] {
        lemma_seq_le_trans(a.drop_first(), b.drop_first(), c.drop_first());
    }
}

/// Character-wise equality of two string slices.
pub fn str_eq(a: &str, b: &str) -> (r: bool)
    ensures
        r == (a@ == b@),
{
    let la: usize = a.unicode_len();
    let lb: usize = b.unicode_len();
    if la != lb {
        return false;
    }
    let mut i: usize = 0;
    while i < la
        invariant
            la == a@.len(),
            la == b@.len(),
            i <= la,
            forall|j: int| 0 <= j < i ==> a@[j] == b@[j],
        decreases la - i,
    {
        if a.get_char(i) != b.get_char(i) {
            return false;
        }
        i = i + 1;
    }
    proof {
        assert(a@ =~= b@);
    }
    true
}

/// Decide the lexicographic order on two string slices.
pub fn str_le(a: &str, b: &str) -> (r: bool)
    ensures
        r == seq_le(a@, b@),
{
    let la: usize = a.unicode_len();
    let lb: usize = b.unicode_len();
    let mut i: usize = 0;
    proof {
        assert(a@.skip(0) =~= a@);
        assert(b@.skip(0) =~= b@);
    }
    loop
        invariant
            la == a@.len(),
            lb == b@.len(),
            i <= la,
            i <= lb,
            seq_le(a@, b@) == seq_le(a@.skip(i as int), b@.skip(i as int)),
        decreases la - i,
    {
        if i == la {
            proof {
                assert(a@.skip(i as int).len() == 0);
            }
            return true;
        }
        if i == lb {
            proof {
                assert(b@.skip(i as int).len() == 0);
                assert(a@.skip(i as int).len() > 0);
            }
            return false;
        }
        let ca = a.get_char(i);
        let cb = b.get_char(i);
        proof {
            assert(a@.skip(i as int)[0] == a@[i as int]);
            assert(b@.skip(i as int)[0] == b@[i as int]);
        }
        if ca != cb {
            return ca < cb;
        }
        proof {
            assert(a@.skip(i as int).drop_first() =~= a@.skip(i + 1));
            assert(b@.skip(i as int).drop_first() =~= b@.skip(i + 1));
        }
        i = i + 1;
    }
}

/// The set of character sequences occurring in a list.
pub open spec fn name_set(s: Seq<Seq<char>>) -> Set<Seq<char>> {
    Set::new(|x: Seq<char>| s.contains(x))
}

/// Views of a list of strings.
pub open spec fn views(s: Seq<String>) -> Seq<Seq<char>> {
    s.map_values(|x: String| x@)
}

/// Strictly ascending in the lexicographic order: sorted and free of duplicates.
pub open spec fn strictly_sorted(s: Seq<Seq<char>>) -> bool {
    forall|i: int, j: int| 0 <= i < j < s.len() ==> seq_lt(s[i], s[j])
}

pub proof fn lemma_name_set_push(s: Seq<Seq<char>>, x: Seq<char>)
    ensures
        name_set(s.push(x)) =~= name_set(s).insert(x),
{
    assert forall|y: Seq<char>| s.push(x).contains(y) implies s.contains(y) || y == x by {
        let k = choose|k: int| 0 <= k < s.push(x).len() && s.push(x)[k] == y;
        if k < s.len() {
            assert(s[k] == y);
        }
    }
    assert forall|y: Seq<char>| s.contains(y) implies s.push(x).contains(y) by {
        let k = choose|k: int| 0 <= k < s.len() && s[k] == y;
        assert(s.push(x)[k] == y);
    }
    assert(s.push(x)[s.len() as int] == x);
}

pub proof fn lemma_name_set_insert(s: Seq<Seq<char>>, j: int, x: Seq<char>)
    requires
        0 <= j <= s.len(),
    ensures
        name_set(s.insert(j, x)) =~= name_set(s).insert(x),
{
    let t = s.insert(j, x);
    assert forall|y: Seq<char>| t.contains(y) implies s.contains(y) || y == x by {
        let k = choose|k: int| 0 <= k < t.len() && t[k] == y;
        if k < j {
            assert(s[k] == y);
        } else if k > j {
            assert(s[k - 1] == y);
        }
    }
    assert forall|y: Seq<char>| s.contains(y) implies t.contains(y) by {
        let k = choose|k: int| 0 <= k < s.len() && s[k] == y;
        if k < j {
            assert(t[k] == y);
        } else {
            assert(t[k + 1] == y);
        }
    }
    assert(t[j] == x);
}

/// Sort a list of strings and drop duplicate entries.
pub fn sort_dedup(v: &Vec<String>) -> (r: Vec<String>)
    ensures
        strictly_sorted(views(r@)),
        name_set(views(r@)) == name_set(views(v@)),
{
    let mut out: Vec<String> = Vec::new();
    let mut i: usize = 0;
    proof {
        assert(views(v@.take(0)) =~= Seq::<Seq<char>>::empty());
        assert(name_set(views(out@)) =~= name_set(views(v@.take(0))));
    }
    while i < v.len()
        invariant
            i <= v@.len(),
            strictly_sorted(views(out@)),
            name_set(views(out@)) == name_set(views(v@.take(i as int))),
        decreases v@.len() - i,
    {
        insert_unique(&mut out, &v[i]);
        proof {
            assert(views(v@.take(i + 1)) =~= views(v@.take(i as int)).push(v@[i as int]@));
            lemma_name_set_push(views(v@.take(i as int)), v@[i as int]@);
        }
        i = i + 1;
    }
    proof {
        assert(v@.take(v@.len() as int) =~= v@);
    }
    out
}

/// Insert a string into a strictly sorted list, keeping it strictly sorted;
/// a string already present is not inserted again.
fn insert_unique(out: &mut Vec<String>, s: &String)
    requires
        strictly_sorted(views(old(out)@)),
    ensures
        strictly_sorted(views(final(out)@)),
        name_set(views(final(out)@)) == name_set(views(old(out)@)).insert(s@),
{
    let mut j: usize = 0;
    while j < out.len() && !str_le(s.as_str(), out[j].as_str())
        invariant
            j <= out@.len(),
            strictly_sorted(views(out@)),
            out@ == old(out)@,
            forall|k: int| 0 <= k < j ==> !seq_le(s@, views(out@)[k]),
        decreases out@.len() - j,
    {
        j = j + 1;
    }
    proof {
        assert forall|k: int| 0 <= k < j implies seq_lt(views(out@)[k], s@) by {
            lemma_seq_le_total(s@, views(out@)[k]);
            if views(out@)[k] == s@ {
                lemma_seq_le_refl(s@);
            }
        }
    }
    if j < out.len() && str_eq(s.as_str(), out[j].as_str()) {
        proof {
            assert(views(out@)[j as int] == s@);
            assert(name_set(views(out@)).contains(s@));
            assert(name_set(views(out@)).insert(s@) =~= name_set(views(out@)));
        }
        return;
    }
    let ghost pre = views(out@);
    out.insert(j, s.clone());
    proof {
        let now = views(out@);
        assert(now =~= pre.insert(j as int, s@));
        lemma_name_set_insert(pre, j as int, s@);
        assert forall|p: int, q: int| 0 <= p < q < now.len() implies seq_lt(now[p], now[q]) by {
            if q < j {
                assert(now[p] == pre[p] && now[q] == pre[q]);
            } else if p < j && q == j {
                assert(now[p] == pre[p]);
                assert(seq_lt(pre[p], s@));
            } else if p < j && q > j {
                assert(now[p] == pre[p] && now[q] == pre[q - 1]);
                if q - 1 == j {
                    assert(seq_lt(pre[p], s@));
                    assert(seq_le(s@, pre[j as int]));
                    lemma_seq_le_trans(pre[p], s@, pre[j as int]);
                    if pre[p] == pre[j as int] {
                        lemma_seq_le_antisym(s@, pre[j as int]);
                    }
                } else {
                    assert(seq_lt(pre[p], pre[q - 1]));
                }
            } else if p == j && q > j {
                assert(now[q] == pre[q - 1]);
                assert(seq_le(s@, pre[j as int]));
                if q - 1 > j {
                    assert(seq_lt(pre[j as int], pre[q - 1]));
                    lemma_seq_le_trans(s@, pre[j as int], pre[q - 1]);
                    if s@ == pre[q - 1] {
                        lemma_seq_le_antisym(s@, pre[j as int]);
                    }
                } else {
                    assert(s@ != pre[j as int]);
                }
            } else {
                assert(now[p] == pre[p - 1] && now[q] == pre[q - 1]);
                assert(seq_lt(pre[p - 1], pre[q - 1]));
            }
        }
    }
}

/// A set of names has exactly one strictly sorted enumeration: two sorted,
/// duplicate-free listings of the same names are equal entry by entry.
pub proof fn lemma_sorted_enumeration_unique(a: Seq<Seq<char>>, b: Seq<Seq<char>>)
    requires
        strictly_sorted(a),
        strictly_sorted(b),
        name_set(a) == name_set(b),
    ensures
        a == b,
    decreases a.len(),
{
    if a.len() == 0 {
        if b.len() > 0 {
            assert(b.contains(b[0]));
            assert(name_set(a).contains(b[0]));
        }
        assert(a =~= b);
    } else {
        assert(a.contains(a[0]));
        assert(name_set(b).contains(a[0]));
        let j = choose|j: int| 0 <= j < b.len() && b[j] == a[0];
        assert(b.contains(b[0]));
        assert(name_set(a).contains(b[0]));
        let i = choose|i: int| 0 <= i < a.len() && a[i] == b[0];
        if i > 0 && j > 0 {
            assert(seq_lt(a[0], a[i]));
            assert(seq_lt(b[0], b[j]));
            lemma_seq_le_antisym(a[0], b[0]);
            assert(false);
        }
        assert(a[0] == b[0]);
        let at = a.drop_first();
        let bt = b.drop_first();
        assert forall|p: int, q: int| 0 <= p < q < at.len() implies seq_lt(at[p], at[q]) by {
            assert(at[p] == a[p + 1] && at[q] == a[q + 1]);
        }
        assert forall|p: int, q: int| 0 <= p < q < bt.len() implies seq_lt(bt[p], bt[q]) by {
            assert(bt[p] == b[p + 1] && bt[q] == b[q + 1]);
        }
        assert forall|x: Seq<char>| name_set(at).contains(x) implies name_set(
            bt,
        ).contains(x) by {
            lemma_tail_member(a, b, x);
        }
        assert forall|x: Seq<char>| name_set(bt).contains(x) implies name_set(
            at,
        ).contains(x) by {
            lemma_tail_member(b, a, x);
        }
        assert(name_set(at) =~= name_set(bt));
        lemma_sorted_enumeration_unique(at, bt);
        assert forall|k: int| 0 <= k < a.len() implies a[k] == b[k] by {
            if k > 0 {
                assert(a[k] == at[k - 1] && b[k] == bt[k - 1]);
            }
        }
        assert(a =~= b);
    }
}

proof fn lemma_tail_member(a: Seq<Seq<char>>, b: Seq<Seq<char>>, x: Seq<char>)
    requires
        strictly_sorted(a),
        strictly_sorted(b),
        name_set(a) == name_set(b),
        a.len() > 0,
        b.len() > 0,
        a[0] == b[0],
        a.drop_first().contains(x),
    ensures
        b.drop_first().contains(x),
{
    let k = choose|k: int| 0 <= k < a.drop_first().len() && a.drop_first()[k] == x;
    assert(a[k + 1] == x);
    assert(seq_lt(a[0], x));
    assert(a.contains(x));
    assert(name_set(b).contains(x));
    let m = choose|m: int| 0 <= m < b.len() && b[m] == x;
    if m == 0 {
        lemma_seq_le_refl(x);
    }
    assert(b.drop_first()[m - 1] == x);
    assert(b.drop_first().contains(x));
}

/// The decimal rendering of a number.
pub open spec fn spec_decimal(n: nat) -> Seq<char>
    decreases n,
{
    if n < 10 {
        seq![digit_char(n)]
    } else {
        spec_decimal(n / 10).push(digit_char(n % 10))
    }
}

/// The character for one decimal digit.
pub open spec fn digit_char(d: nat) -> char {
    if d == 0 { '0' }
    else if d == 1 { '1' }
    else if d == 2 { '2' }
    else if d == 3 { '3' }
    else if d == 4 { '4' }
    else if d == 5 { '5' }
    else if d == 6 { '6' }
    else if d == 7 { '7' }
    else if d == 8 { '8' }
    else if d == 9 { '9' }
    else { ' ' }
}

fn digit_str(d: u64) -> (r: &'static str)
    requires
        d < 10,
    ensures
        r@ =~= seq![digit_char(d as nat)],
{
    if d == 0 { let s = "0"; proof { reveal_strlit("0"); } s }
    else if d == 1 { let s = "1"; proof { reveal_strlit("1"); } s }
    else if d == 2 { let s = "2"; proof { reveal_strlit("2"); } s }
    else if d == 3 { let s = "3"; proof { reveal_strlit("3"); } s }
    else if d == 4 { let s = "4"; proof { reveal_strlit("4"); } s }
    else if d == 5 { let s = "5"; proof { reveal_strlit("5"); } s }
    else if d == 6 { let s = "6"; proof { reveal_strlit("6"); } s }
    else if d == 7 { let s = "7"; proof { reveal_strlit("7"); } s }
    else if d == 8 { let s = "8"; proof { reveal_strlit("8"); } s }
    else { let s = "9"; proof { reveal_strlit("9"); } s }
}

/// Render a number in decimal.
pub fn decimal_string(n: u64) -> (r: String)
    ensures
        r@ == spec_decimal(n as nat),
    decreases n,
{
    if n < 10 {
        digit_str(n).to_owned()
    } else {
        let mut s = decimal_string(n / 10);
        s.append(digit_str(n % 10));
        proof {
            assert(spec_decimal((n / 10) as nat) + seq![digit_char((n % 10) as nat)]
                =~= spec_decimal((n / 10) as nat).push(digit_char((n % 10) as nat)));
        }
        s
    }
}

} // verus!
