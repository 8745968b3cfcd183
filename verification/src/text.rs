//! The order of strings, and the few string operations the other modules share.
use vstd::prelude::*;

verus! {

/// How two strings stand to each other.
#[derive(Clone, Copy, PartialEq, Eq, Structural, Debug)]
pub enum Rank {
    Before,
    Same,
    After,
}

/// `a` and `b` agree before position `k`, and at `k` either `a` ends or its byte is the smaller.
pub open spec fn parts_at(a: Seq<u8>, b: Seq<u8>, k: int) -> bool {
    &&& 0 <= k <= a.len()
    &&& k < b.len()
    &&& forall|i: int| 0 <= i < k ==> a[i] == b[i]
    &&& k == a.len() || a[k] < b[k]
}

/// `a` comes before `b` in the order of strings: lexicographic, by the bytes of their UTF-8 form.
pub open spec fn before(a: Seq<char>, b: Seq<char>) -> bool {
    exists|k: int| parts_at(vstd::utf8::encode_utf8(a), vstd::utf8::encode_utf8(b), k)
}

/// Every entry comes before all later ones (so no entry occurs twice).
pub open spec fn ascending(s: Seq<Seq<char>>) -> bool {
    forall|i: int, j: int| 0 <= i < j < s.len() ==> before(#[trigger] s[i], #[trigger] s[j])
}

/// The members of `set` in ascending order.
pub open spec fn sorted(set: Set<Seq<char>>) -> Seq<Seq<char>> {
    choose|s: Seq<Seq<char>>| #[trigger] ascending(s) && s.to_set() == set
}

/// What a list of strings holds.
pub open spec fn views(list: Seq<String>) -> Seq<Seq<char>> {
    list.map_values(|s: String| s@)
}

/// What a list of string slices holds.
pub open spec fn slice_views(list: Seq<&'static str>) -> Seq<Seq<char>> {
    list.map_values(|s: &'static str| s@)
}

pub proof fn lemma_before_irreflexive(a: Seq<char>)
    ensures
        !before(a, a),
{
}

pub proof fn lemma_before_transitive(a: Seq<char>, b: Seq<char>, c: Seq<char>)
    requires
        before(a, b),
        before(b, c),
    ensures
        before(a, c),
{
    let (x, y, z) = (
        vstd::utf8::encode_utf8(a),
        vstd::utf8::encode_utf8(b),
        vstd::utf8::encode_utf8(c),
    );
    let k = choose|k: int| parts_at(x, y, k);
    let m = choose|m: int| parts_at(y, z, m);
    if k <= m {
        assert(parts_at(x, z, k));
    } else {
        assert(parts_at(x, z, m));
    }
}

/// An ascending list is determined by the set of its entries.
pub proof fn lemma_ascending_unique(a: Seq<Seq<char>>, b: Seq<Seq<char>>)
    requires
        ascending(a),
        ascending(b),
        a.to_set() == b.to_set(),
    ensures
        a == b,
    decreases a.len(),
{
    if a.len() == 0 {
        if b.len() > 0 {
            assert(b.to_set().contains(b[0]));
            assert(a.contains(b[0]));
        }
        assert(a =~= b);
    } else {
        assert(a.to_set().contains(a.last()));
        assert(b.contains(a.last()));
        let j = b.index_of(a.last());
        assert(b.to_set().contains(b.last()));
        assert(a.contains(b.last()));
        let i = a.index_of(b.last());
        if j < b.len() - 1 {
            assert(before(b[j], b.last()));
            if i < a.len() - 1 {
                assert(before(a[i], a.last()));
                lemma_before_transitive(a.last(), b.last(), a.last());
            }
            lemma_before_irreflexive(a.last());
        }
        assert(a.last() == b.last());
        let (x, y) = (a.drop_last(), b.drop_last());
        lemma_drop_last(a);
        lemma_drop_last(b);
        lemma_ascending_unique(x, y);
        assert(a =~= x.push(a.last()));
        assert(b =~= y.push(b.last()));
    }
}

proof fn lemma_drop_last(a: Seq<Seq<char>>)
    requires
        ascending(a),
        a.len() > 0,
    ensures
        ascending(a.drop_last()),
        a.drop_last().to_set() == a.to_set().remove(a.last()),
{
    let x = a.drop_last();
    assert forall|e: Seq<char>| x.to_set().contains(e) implies a.to_set().remove(
        a.last(),
    ).contains(e) by {
        let i = x.index_of(e);
        assert(a[i] == e);
        assert(before(a[i], a.last()));
        lemma_before_irreflexive(e);
    }
    assert forall|e: Seq<char>| a.to_set().remove(a.last()).contains(e) implies x.to_set().contains(
        e,
    ) by {
        let i = a.index_of(e);
        assert(x[i] == e);
    }
    assert(x.to_set() =~= a.to_set().remove(a.last()));
}

/// The sorted form of a set that an ascending list enumerates is that list.
pub proof fn lemma_sorted(s: Seq<Seq<char>>)
    requires
        ascending(s),
    ensures
        sorted(s.to_set()) == s,
{
    let t = sorted(s.to_set());
    assert(ascending(t) && t.to_set() == s.to_set());
    lemma_ascending_unique(t, s);
}

/// Inserting `key` between the smaller and the larger entries keeps the order.
pub proof fn lemma_insert(s: Seq<Seq<char>>, at: int, key: Seq<char>)
    requires
        ascending(s),
        0 <= at <= s.len(),
        forall|i: int| 0 <= i < at ==> before(#[trigger] s[i], key),
        forall|i: int| at <= i < s.len() ==> before(key, #[trigger] s[i]),
    ensures
        ascending(s.insert(at, key)),
        s.insert(at, key).to_set() == s.to_set().insert(key),
{
    let t = s.insert(at, key);
    assert forall|i: int, j: int| 0 <= i < j < t.len() implies before(
        #[trigger] t[i],
        #[trigger] t[j],
    ) by {
        let x = if i < at { i } else { i - 1 };
        let y = if j < at { j } else { j - 1 };
        if i != at {
            assert(t[i] == s[x]);
        }
        if j != at {
            assert(t[j] == s[y]);
        }
    }
    assert forall|e: Seq<char>| t.to_set().contains(e) implies s.to_set().insert(key).contains(
        e,
    ) by {
        let i = t.index_of(e);
        if i < at {
            assert(s[i] == e);
        } else if i > at {
            assert(s[i - 1] == e);
        }
    }
    assert forall|e: Seq<char>| s.to_set().insert(key).contains(e) implies t.to_set().contains(
        e,
    ) by {
        if e == key {
            assert(t[at] == e);
        } else {
            let i = s.index_of(e);
            if i < at {
                assert(t[i] == e);
            } else {
                assert(t[i + 1] == e);
            }
        }
    }
    assert(t.to_set() =~= s.to_set().insert(key));
}

/// Appending an entry adds it to the set of entries.
pub proof fn lemma_push_to_set(s: Seq<Seq<char>>, e: Seq<char>)
    ensures
        s.push(e).to_set() == s.to_set().insert(e),
{
    assert forall|x: Seq<char>| s.to_set().insert(e).contains(x) implies s.push(e).to_set().contains(
        x,
    ) by {
        if x == e {
            assert(s.push(e)[s.len() as int] == e);
        } else {
            let i = s.index_of(x);
            assert(s.push(e)[i] == x);
        }
    }
    assert(s.push(e).to_set() =~= s.to_set().insert(e));
}

/// Strings with the same UTF-8 form are the same string.
pub proof fn lemma_utf8_injective(a: Seq<char>, b: Seq<char>)
    requires
        vstd::utf8::encode_utf8(a) == vstd::utf8::encode_utf8(b),
    ensures
        a == b,
{
    vstd::utf8::encode_utf8_decode_utf8(a);
    vstd::utf8::encode_utf8_decode_utf8(b);
}

/// One more character adds its own bytes at the end.
pub proof fn lemma_utf8_push(s: Seq<char>, c: char)
    ensures
        vstd::utf8::encode_utf8(s.push(c)) == vstd::utf8::encode_utf8(s)
            + vstd::utf8::encode_utf8(seq![c]),
    decreases s.len(),
{
    if s.len() == 0 {
        assert(s.push(c) =~= seq![c]);
        assert(vstd::utf8::encode_utf8(s) =~= seq![]);
    } else {
        lemma_utf8_push(s.drop_first(), c);
        assert(s.push(c).drop_first() =~= s.drop_first().push(c));
    }
    assert(vstd::utf8::encode_utf8(s.push(c)) =~= vstd::utf8::encode_utf8(s)
        + vstd::utf8::encode_utf8(seq![c]));
}

/// Compares two strings byte by byte.
pub fn rank(a: &str, b: &str) -> (r: Rank)
    ensures
        match r {
            Rank::Before => before(a@, b@),
            Rank::Same => a@ == b@,
            Rank::After => before(b@, a@),
        },
{
    let x = a.as_bytes();
    let y = b.as_bytes();
    let mut i: usize = 0;
    while i < x.len() && i < y.len()
        invariant
            x@ == vstd::utf8::encode_utf8(a@),
            y@ == vstd::utf8::encode_utf8(b@),
            i <= x@.len(),
            i <= y@.len(),
            forall|k: int| 0 <= k < i ==> x@[k] == y@[k],
        decreases x@.len() - i,
    {
        if x[i] < y[i] {
            assert(parts_at(x@, y@, i as int));
            return Rank::Before;
        }
        if y[i] < x[i] {
            assert(parts_at(y@, x@, i as int));
            return Rank::After;
        }
        i = i + 1;
    }
    if i < y.len() {
        assert(parts_at(x@, y@, i as int));
        Rank::Before
    } else if i < x.len() {
        assert(parts_at(y@, x@, i as int));
        Rank::After
    } else {
        proof {
            assert(x@ =~= y@);
            lemma_utf8_injective(a@, b@);
        }
        Rank::Same
    }
}

/// Whether two strings are the same.
pub fn same(a: &str, b: &str) -> (r: bool)
    ensures
        r == (a@ == b@),
{
    match rank(a, b) {
        Rank::Same => true,
        Rank::Before => {
            proof {
                lemma_before_irreflexive(a@);
            }
            false
        },
        Rank::After => {
            proof {
                lemma_before_irreflexive(a@);
            }
            false
        },
    }
}

/// Whether `key` is one of `list`.
pub fn listed(list: &Vec<&'static str>, key: &str) -> (r: bool)
    ensures
        r == slice_views(list@).contains(key@),
{
    let mut i: usize = 0;
    while i < list.len()
        invariant
            i <= list@.len(),
            forall|k: int| 0 <= k < i ==> slice_views(list@)[k] != key@,
        decreases list@.len() - i,
    {
        if same(list[i], key) {
            assert(slice_views(list@)[i as int] == key@);
            return true;
        }
        i = i + 1;
    }
    false
}

/// The digit `d` as a character.
pub open spec fn digit(d: nat) -> char {
    seq!['0', '1', '2', '3', '4', '5', '6', '7', '8', '9'][d as int]
}

/// `n` in decimal.
pub open spec fn decimal(n: nat) -> Seq<char>
    decreases n,
{
    if n < 10 {
        seq![digit(n)]
    } else {
        decimal(n / 10).push(digit(n % 10))
    }
}

/// `n` in decimal, with a minus sign where it is negative.
pub open spec fn integer(n: int) -> Seq<char> {
    if n < 0 {
        "-"@ + decimal((-n) as nat)
    } else {
        decimal(n as nat)
    }
}

fn digit_text(d: u64) -> (r: &'static str)
    requires
        d < 10,
    ensures
        r@ == seq![digit(d as nat)],
{
    proof {
        reveal_strlit("0");
        reveal_strlit("1");
        reveal_strlit("2");
        reveal_strlit("3");
        reveal_strlit("4");
        reveal_strlit("5");
        reveal_strlit("6");
        reveal_strlit("7");
        reveal_strlit("8");
        reveal_strlit("9");
    }
    let r: &'static str = match d {
        0 => "0",
        1 => "1",
        2 => "2",
        3 => "3",
        4 => "4",
        5 => "5",
        6 => "6",
        7 => "7",
        8 => "8",
        _ => "9",
    };
    assert(r@ =~= seq![digit(d as nat)]);
    r
}

/// `n` in decimal.
pub fn decimal_text(n: u64) -> (r: String)
    ensures
        r@ == decimal(n as nat),
    decreases n,
{
    if n < 10 {
        digit_text(n).to_string()
    } else {
        let mut r = decimal_text(n / 10);
        r.append(digit_text(n % 10));
        assert(r@ =~= decimal(n as nat));
        r
    }
}

/// `n` in decimal, with a minus sign where it is negative.
pub fn integer_text(n: i64) -> (r: String)
    ensures
        r@ == integer(n as int),
{
    if n < 0 {
        let size: u64 = (-(n as i128)) as u64;
        let mut r = "-".to_string();
        r.append(decimal_text(size).as_str());
        r
    } else {
        decimal_text(n as u64)
    }
}

/// Different numbers have different decimal forms.
pub proof fn lemma_decimal_injective(m: nat, n: nat)
    requires
        decimal(m) == decimal(n),
    ensures
        m == n,
    decreases m,
{
    lemma_digit_injective(m % 10, n % 10);
    if m < 10 || n < 10 {
        lemma_decimal_len(m);
        lemma_decimal_len(n);
        assert(decimal(m).last() == digit(m % 10));
        assert(decimal(n).last() == digit(n % 10));
    } else {
        assert(decimal(m).drop_last() =~= decimal(m / 10));
        assert(decimal(n).drop_last() =~= decimal(n / 10));
        assert(decimal(m).last() == digit(m % 10));
        assert(decimal(n).last() == digit(n % 10));
        lemma_decimal_injective(m / 10, n / 10);
    }
}

proof fn lemma_decimal_len(n: nat)
    ensures
        decimal(n).len() >= 1,
        n >= 10 ==> decimal(n).len() >= 2,
    decreases n,
{
    if n >= 10 {
        lemma_decimal_len(n / 10);
    }
}

proof fn lemma_digit_injective(a: nat, b: nat)
    requires
        a < 10,
        b < 10,
    ensures
        digit(a) == digit(b) ==> a == b,
{
}

/// For any two strings that differ, one comes before the other.
pub proof fn lemma_before_total(a: Seq<char>, b: Seq<char>)
    requires
        a != b,
    ensures
        before(a, b) || before(b, a),
{
    let (x, y) = (vstd::utf8::encode_utf8(a), vstd::utf8::encode_utf8(b));
    if x == y {
        lemma_utf8_injective(a, b);
    }
    lemma_first_difference(x, y, 0);
}

proof fn lemma_first_difference(x: Seq<u8>, y: Seq<u8>, k: int)
    requires
        x != y,
        0 <= k <= x.len(),
        k <= y.len(),
        forall|i: int| 0 <= i < k ==> x[i] == y[i],
    ensures
        exists|m: int| parts_at(x, y, m) || parts_at(y, x, m),
    decreases x.len() - k,
{
    if k == x.len() || k == y.len() {
        if x.len() == y.len() {
            assert(x =~= y);
        }
        assert(parts_at(x, y, k) || parts_at(y, x, k));
    } else if x[k] != y[k] {
        assert(parts_at(x, y, k) || parts_at(y, x, k));
    } else {
        lemma_first_difference(x, y, k + 1);
    }
}

/// Every finite set of strings can be put in order.
pub proof fn lemma_sorted_lists(set: Set<Seq<char>>)
    requires
        set.finite(),
    ensures
        ascending(sorted(set)),
        sorted(set).to_set() == set,
    decreases set.len(),
{
    if set.len() == 0 {
        let s = Seq::<Seq<char>>::empty();
        assert(s.to_set() =~= set);
        assert(ascending(s));
    } else {
        let key = set.choose();
        let rest = set.remove(key);
        lemma_sorted_lists(rest);
        let s = sorted(rest);
        lemma_place(s, key, s.len() as int);
        let t = choose|t: Seq<Seq<char>>| #[trigger]
            ascending(t) && t.to_set() == s.to_set().insert(key);
        assert(s.to_set().insert(key) =~= set);
        assert(ascending(t) && t.to_set() == set);
    }
}

/// A new entry has its place in an ascending list, at `at` or before.
proof fn lemma_place(s: Seq<Seq<char>>, key: Seq<char>, at: int)
    requires
        ascending(s),
        !s.contains(key),
        0 <= at <= s.len(),
        forall|i: int| at <= i < s.len() ==> before(key, #[trigger] s[i]),
    ensures
        exists|t: Seq<Seq<char>>| #[trigger] ascending(t) && t.to_set() == s.to_set().insert(key),
    decreases at,
{
    if at > 0 && !before(s[at - 1], key) {
        assert(s.contains(s[at - 1]));
        lemma_before_total(s[at - 1], key);
        lemma_place(s, key, at - 1);
    } else {
        assert forall|i: int| 0 <= i < at implies before(#[trigger] s[i], key) by {
            if i < at - 1 {
                lemma_before_transitive(s[i], s[at - 1], key);
            }
        }
        lemma_insert(s, at, key);
        assert(ascending(s.insert(at, key)));
    }
}

} // verus!
