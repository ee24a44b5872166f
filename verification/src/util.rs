//! Small helpers on strings and sequences shared by the other modules.

use vstd::prelude::*;

verus! {

/// The characters of `s`, one by one.
pub fn to_chars(s: &str) -> (v: Vec<char>)
    ensures
        v@ == s@,
{
    let mut v: Vec<char> = Vec::new();
    for c in it: s.chars()
        invariant
            it.seq() == s@,
            v@ == s@.take(it.index() as int),
    {
        v.push(c);
        assert(s@.take(it.index() + 1) == s@.take(it.index() as int).push(c));
    }
    assert(s@.take(s@.len() as int) == s@);
    v
}

/// The texts that the strings of `v` hold.
pub open spec fn texts(v: Seq<String>) -> Seq<Seq<char>> {
    Seq::new(v.len(), |i: int| v[i]@)
}

/// The texts of a sequence with one string more are the texts of the
/// sequence with the text of that string more.
pub proof fn lemma_texts_push(v: Seq<String>, s: String)
    ensures
        texts(v.push(s)) == texts(v).push(s@),
{
    assert(texts(v.push(s)) =~= texts(v).push(s@));
}

/// The first position at which `items` holds `key`, if it holds it.
pub open spec fn position_of(items: Seq<Seq<char>>, key: Seq<char>) -> Option<int> {
    if exists|i: int| 0 <= i < items.len() && items[i] == key {
        Some(
            choose|i: int|
                0 <= i < items.len() && items[i] == key && forall|j: int|
                    0 <= j < i ==> items[j] != key,
        )
    } else {
        None
    }
}

/// Where `position_of` finds a key, the key stands, and nowhere before.
pub proof fn lemma_position_of(items: Seq<Seq<char>>, key: Seq<char>)
    ensures
        match position_of(items, key) {
            Some(i) => 0 <= i < items.len() && items[i] == key && forall|j: int|
                0 <= j < i ==> items[j] != key,
            None => forall|j: int| 0 <= j < items.len() ==> items[j] != key,
        },
{
    if exists|i: int| 0 <= i < items.len() && items[i] == key {
        let w = choose|i: int| 0 <= i < items.len() && items[i] == key;
        lemma_first_exists(items, key, w);
    }
}

proof fn lemma_first_exists(items: Seq<Seq<char>>, key: Seq<char>, w: int)
    requires
        0 <= w < items.len(),
        items[w] == key,
    ensures
        exists|i: int|
            0 <= i < items.len() && items[i] == key && forall|j: int|
                0 <= j < i ==> items[j] != key,
    decreases w,
{
    if exists|k: int| 0 <= k < w && items[k] == key {
        let k = choose|k: int| 0 <= k < w && items[k] == key;
        lemma_first_exists(items, key, k);
    } else {
        assert(0 <= w < items.len() && items[w] == key && forall|j: int|
            0 <= j < w ==> items[j] != key);
    }
}

/// The first position at which `items` holds the text `key`, if any.
pub fn find_text(items: &Vec<String>, key: &str) -> (r: Option<usize>)
    ensures
        match r {
            Some(i) => position_of(texts(items@), key@) == Some(i as int),
            None => position_of(texts(items@), key@) is None,
        },
{
    let wanted: String = key.to_owned();
    let mut i: usize = 0;
    proof {
        lemma_position_of(texts(items@), key@);
    }
    while i < items.len()
        invariant
            i <= items.len(),
            wanted@ == key@,
            forall|j: int| 0 <= j < i ==> texts(items@)[j] != key@,
        decreases items.len() - i,
    {
        if items[i] == wanted {
            assert(texts(items@)[i as int] == key@);
            return Some(i);
        }
        i += 1;
    }
    None
}

/// A copy of `items`.
pub fn clone_texts(items: &Vec<String>) -> (r: Vec<String>)
    ensures
        texts(r@) == texts(items@),
{
    let mut out: Vec<String> = Vec::new();
    let mut i: usize = 0;
    while i < items.len()
        invariant
            i <= items.len(),
            out@.len() == i,
            forall|j: int| 0 <= j < i ==> out@[j]@ == items@[j]@,
        decreases items.len() - i,
    {
        out.push(items[i].clone());
        i += 1;
    }
    assert(texts(out@) =~= texts(items@));
    out
}

/// The character of the digit `d`.
pub open spec fn digit_char(d: nat) -> char
    recommends
        d < 10,
{
    if d == 0 {
        '0'
    } else if d == 1 {
        '1'
    } else if d == 2 {
        '2'
    } else if d == 3 {
        '3'
    } else if d == 4 {
        '4'
    } else if d == 5 {
        '5'
    } else if d == 6 {
        '6'
    } else if d == 7 {
        '7'
    } else if d == 8 {
        '8'
    } else {
        '9'
    }
}

/// `n` written in decimal digits, without zeros in front.
pub open spec fn decimal(n: nat) -> Seq<char>
    decreases n,
{
    if n < 10 {
        seq![digit_char(n)]
    } else {
        decimal(n / 10).push(digit_char(n % 10))
    }
}

fn digit_text(d: u64) -> (r: &'static str)
    requires
        d < 10,
    ensures
        r@ == seq![digit_char(d as nat)],
{
    proof {
        reveal_strlit("0");
        reveal_strlit("1");
        reveal_strlit("2");
        reveal_strlit("3");
        reveal_strlit("4");
        reveal_strlit("5");
        reveal_strlit("6");
        reveal_strlit("7");
        reveal_strlit("8");
        reveal_strlit("9");
    }
    let r: &'static str = if d == 0 {
        "0"
    } else if d == 1 {
        "1"
    } else if d == 2 {
        "2"
    } else if d == 3 {
        "3"
    } else if d == 4 {
        "4"
    } else if d == 5 {
        "5"
    } else if d == 6 {
        "6"
    } else if d == 7 {
        "7"
    } else if d == 8 {
        "8"
    } else {
        "9"
    };
    assert(r@ =~= seq![digit_char(d as nat)]);
    r
}

/// `n` written in decimal digits.
pub fn to_decimal(n: u64) -> (r: String)
    ensures
        r@ == decimal(n as nat),
    decreases n,
{
    if n < 10 {
        String::from_str(digit_text(n))
    } else {
        let mut out: String = to_decimal(n / 10);
        out.append(digit_text(n % 10));
        assert(out@ =~= decimal((n / 10) as nat).push(digit_char((n % 10) as nat)));
        out
    }
}

} // verus!
