use vstd::prelude::*;

verus! {

/// Strict lexicographic order on texts, character by character. `str`
/// compares the UTF-8 bytes, which orders texts the same way.
pub open spec fn text_lt(a: Seq<char>, b: Seq<char>) -> bool
    decreases a.len(),
{
    if a.len() == 0 {
        b.len() > 0
    } else if b.len() == 0 {
        false
    } else if a[0] != b[0] {
        a[0] < b[0]
    } else {
        text_lt(a.drop_first(), b.drop_first())
    }
}

/// In a newest-first listing, entry `x` comes before entry `y` when its key
/// is greater, or equal with `x` first in the input.
pub open spec fn comes_before(keys: Seq<Seq<char>>, x: int, y: int) -> bool {
    text_lt(keys[y], keys[x]) || (keys[x] == keys[y] && x < y)
}

/// `order` lists each index below `n` once.
pub open spec fn is_order_of(order: Seq<usize>, n: int) -> bool {
    &&& order.len() == n
    &&& forall|p: int| 0 <= p < n ==> #[trigger] order[p] < n
    &&& forall|p: int, q: int| 0 <= p < q < n ==> order[p] != order[q]
}

/// Along `order`, keys never grow, and equal keys keep their input order.
pub open spec fn is_newest_first(keys: Seq<Seq<char>>, order: Seq<usize>) -> bool {
    forall|p: int, q: int|
        0 <= p < q < order.len() ==> comes_before(keys, #[trigger] order[p] as int, #[trigger] order[q] as int)
}

pub open spec fn views_of_texts(v: Seq<String>) -> Seq<Seq<char>> {
    v.map_values(|s: String| s@)
}

pub proof fn lemma_text_lt_total(a: Seq<char>, b: Seq<char>)
    ensures
        a == b || text_lt(a, b) || text_lt(b, a),
    decreases a.len(),
{
    if a.len() > 0 && b.len() > 0 && a[0] == b[0] {
        lemma_text_lt_total(a.drop_first(), b.drop_first());
        if a.drop_first() == b.drop_first() {
            assert(a =~= seq![a[0]] + a.drop_first());
            assert(b =~= seq![b[0]] + b.drop_first());
        }
    } else if a.len() == 0 && b.len() == 0 {
        assert(a =~= b);
    }
}

pub proof fn lemma_text_lt_transitive(a: Seq<char>, b: Seq<char>, c: Seq<char>)
    requires
        text_lt(a, b),
        text_lt(b, c),
    ensures
        text_lt(a, c),
    decreases a.len(),
{
    if a.len() > 0 && b.len() > 0 && c.len() > 0 && a[0] == b[0] && b[0] == c[0] {
        lemma_text_lt_transitive(a.drop_first(), b.drop_first(), c.drop_first());
    }
}

proof fn lemma_insert_keeps_order(keys: Seq<Seq<char>>, order: Seq<usize>, i: usize, j: int)
    requires
        i < keys.len(),
        is_order_of(order, i as int),
        is_newest_first(keys, order),
        0 <= j <= order.len(),
        forall|p: int| 0 <= p < j ==> !text_lt(keys[#[trigger] order[p] as int], keys[i as int]),
        j < order.len() ==> text_lt(keys[order[j] as int], keys[i as int]),
    ensures
        is_order_of(order.insert(j, i), i + 1),
        is_newest_first(keys, order.insert(j, i)),
{
    let o2 = order.insert(j, i);
    order.insert_ensures(j, i);
    assert forall|p: int| 0 <= p < i + 1 implies #[trigger] o2[p] < i + 1 by {
        if p < j {
        } else if p > j {
            assert(o2[p] == order[p - 1]);
        }
    }
    assert forall|p: int, q: int| 0 <= p < q < i + 1 implies o2[p] != o2[q] by {
        if q < j {
        } else if q == j {
            assert(order[p] < i);
        } else if p < j {
            assert(o2[q] == order[q - 1]);
        } else if p == j {
            assert(o2[q] == order[q - 1]);
            assert(order[q - 1] < i);
        } else {
            assert(o2[q] == order[q - 1]);
            assert(o2[p] == order[p - 1]);
        }
    }
    assert forall|p: int, q: int| 0 <= p < q < o2.len() implies comes_before(
        keys,
        #[trigger] o2[p] as int,
        #[trigger] o2[q] as int,
    ) by {
        let ki = keys[i as int];
        if q < j {
            assert(comes_before(keys, order[p] as int, order[q] as int));
        } else if q == j {
            let kp = keys[order[p] as int];
            assert(!text_lt(kp, ki));
            lemma_text_lt_total(kp, ki);
            assert(order[p] < i);
        } else if p < j {
            assert(o2[q] == order[q - 1]);
            assert(comes_before(keys, order[p] as int, order[q - 1] as int));
        } else if p == j {
            assert(o2[q] == order[q - 1]);
            let kj = keys[order[j] as int];
            let kq = keys[order[q - 1] as int];
            assert(text_lt(kj, ki));
            if q - 1 > j {
                assert(comes_before(keys, order[j] as int, order[q - 1] as int));
                if text_lt(kq, kj) {
                    lemma_text_lt_transitive(kq, kj, ki);
                }
            }
        } else {
            assert(o2[q] == order[q - 1]);
            assert(o2[p] == order[p - 1]);
            assert(comes_before(keys, order[p - 1] as int, order[q - 1] as int));
        }
    }
}

/// Relies on `str::chars`, collected into a `Vec`: the characters in order.
#[verifier::external_body]
pub(crate) fn chars_of(s: &str) -> (r: Vec<char>)
    ensures
        r@ == s@,
{
    s.chars().collect()
}

/// Whether `a` comes before `b` in `text_lt`'s order.
pub fn text_less(a: &Vec<char>, b: &Vec<char>) -> (r: bool)
    ensures
        r == text_lt(a@, b@),
{
    let mut i: usize = 0;
    assert(a@.subrange(0, a@.len() as int) =~= a@);
    assert(b@.subrange(0, b@.len() as int) =~= b@);
    while i < a.len() && i < b.len() && a[i] == b[i]
        invariant
            i <= a@.len(),
            i <= b@.len(),
            text_lt(a@, b@) == text_lt(
                a@.subrange(i as int, a@.len() as int),
                b@.subrange(i as int, b@.len() as int),
            ),
        decreases a@.len() - i,
    {
        assert(a@.subrange(i as int, a@.len() as int).drop_first() =~= a@.subrange(
            i + 1,
            a@.len() as int,
        ));
        assert(b@.subrange(i as int, b@.len() as int).drop_first() =~= b@.subrange(
            i + 1,
            b@.len() as int,
        ));
        i = i + 1;
    }
    if i == a.len() {
        i < b.len()
    } else if i == b.len() {
        false
    } else {
        a[i] < b[i]
    }
}

/// The order in which to list entries newest first, given each entry's key
/// (a time or a time-stamped name): keys from greatest to least, and entries
/// with equal keys in their input order.
pub fn newest_first_order(keys: &Vec<String>) -> (order: Vec<usize>)
    ensures
        is_order_of(order@, keys@.len() as int),
        is_newest_first(views_of_texts(keys@), order@),
{
    let ghost ks = views_of_texts(keys@);
    let n = keys.len();
    let mut chars: Vec<Vec<char>> = Vec::new();
    let mut k: usize = 0;
    while k < n
        invariant
            n == keys@.len(),
            k <= n,
            chars@.len() == k,
            forall|m: int| 0 <= m < k ==> (#[trigger] chars@[m])@ == keys@[m]@,
        decreases n - k,
    {
        chars.push(chars_of(keys[k].as_str()));
        k = k + 1;
    }
    let mut order: Vec<usize> = Vec::new();
    let mut i: usize = 0;
    while i < n
        invariant
            n == keys@.len(),
            n == chars@.len(),
            ks == views_of_texts(keys@),
            forall|m: int| 0 <= m < n ==> (#[trigger] chars@[m])@ == ks[m],
            i <= n,
            is_order_of(order@, i as int),
            is_newest_first(ks, order@),
        decreases n - i,
    {
        let mut j: usize = 0;
        while j < order.len() && !text_less(&chars[order[j]], &chars[i])
            invariant
                n == chars@.len(),
                i < n,
                forall|m: int| 0 <= m < n ==> (#[trigger] chars@[m])@ == ks[m],
                is_order_of(order@, i as int),
                j <= order@.len(),
                forall|p: int| 0 <= p < j ==> !text_lt(ks[#[trigger] order@[p] as int], ks[i as int]),
            decreases order@.len() - j,
        {
            j = j + 1;
        }
        proof {
            lemma_insert_keeps_order(ks, order@, i, j as int);
        }
        order.insert(j, i);
        i = i + 1;
    }
    order
}

} // verus!
