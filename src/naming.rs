use vstd::prelude::*;
use vstd::relations::injective_on;
use vstd::set_lib::*;

use crate::schema::Field;

verus! {

pub open spec fn digit_char(d: nat) -> char {
    if d == 0 { '0' }
    else if d == 1 { '1' }
    else if d == 2 { '2' }
    else if d == 3 { '3' }
    else if d == 4 { '4' }
    else if d == 5 { '5' }
    else if d == 6 { '6' }
    else if d == 7 { '7' }
    else if d == 8 { '8' }
    else { '9' }
}

/// The decimal digits of `n`, without sign or leading zeros.
pub open spec fn decimal(n: nat) -> Seq<char>
    decreases n,
{
    if n < 10 {
        seq![digit_char(n)]
    } else {
        decimal(n / 10).push(digit_char(n % 10))
    }
}

/// The name tried at a given depth: the name itself at depth 0, else the name
/// followed by `_` and the depth in decimal.
pub open spec fn alias_at(name: Seq<char>, depth: nat) -> Seq<char> {
    if depth == 0 {
        name
    } else {
        name + seq!['_'] + decimal(depth)
    }
}

/// `depth` is the smallest depth whose alias is not taken.
pub open spec fn is_first_free(name: Seq<char>, taken: Seq<Seq<char>>, depth: nat) -> bool {
    &&& !taken.contains(alias_at(name, depth))
    &&& forall|d: nat| d < depth ==> taken.contains(#[trigger] alias_at(name, d))
}

/// The alias that a name receives when the names in `taken` are already used.
pub open spec fn first_free_alias(name: Seq<char>, taken: Seq<Seq<char>>) -> Seq<char> {
    alias_at(name, choose|d: nat| is_first_free(name, taken, d))
}

/// The Column Namer: each header text, left to right, receives the first alias
/// that no earlier output holds.
pub open spec fn column_namer(header: Seq<Seq<char>>) -> Seq<Seq<char>>
    decreases header.len(),
{
    if header.len() == 0 {
        Seq::empty()
    } else {
        let prev = column_namer(header.drop_last());
        prev.push(first_free_alias(header.last(), prev))
    }
}

pub open spec fn field_names(fields: Seq<Field>) -> Seq<Seq<char>> {
    fields.map_values(|f: Field| f.name@)
}

proof fn lemma_decimal_len(n: nat)
    ensures
        decimal(n).len() >= 1,
        n >= 10 ==> decimal(n).len() >= 2,
    decreases n,
{
    if n >= 10 {
        lemma_decimal_len(n / 10);
    }
}

proof fn lemma_digit_char_injective(a: nat, b: nat)
    requires
        a < 10,
        b < 10,
        digit_char(a) == digit_char(b),
    ensures
        a == b,
{
}

proof fn lemma_decimal_injective(a: nat, b: nat)
    requires
        decimal(a) == decimal(b),
    ensures
        a == b,
    decreases a,
{
    lemma_decimal_len(a);
    lemma_decimal_len(b);
    if a < 10 && b < 10 {
        assert(decimal(a)[0] == digit_char(a));
        assert(decimal(b)[0] == digit_char(b));
        lemma_digit_char_injective(a, b);
    } else if a >= 10 && b >= 10 {
        let da = decimal(a);
        let db = decimal(b);
        assert(da.last() == digit_char(a % 10));
        assert(db.last() == digit_char(b % 10));
        lemma_digit_char_injective(a % 10, b % 10);
        assert(da.drop_last() == decimal(a / 10));
        assert(db.drop_last() == decimal(b / 10));
        lemma_decimal_injective(a / 10, b / 10);
    } else {
        assert(decimal(a).len() != decimal(b).len());
    }
}

proof fn lemma_alias_injective(name: Seq<char>, a: nat, b: nat)
    requires
        alias_at(name, a) == alias_at(name, b),
    ensures
        a == b,
{
    lemma_decimal_len(a);
    lemma_decimal_len(b);
    if a != 0 && b != 0 {
        let k = name.len() + 1;
        assert(alias_at(name, a).subrange(k as int, alias_at(name, a).len() as int) =~= decimal(a));
        assert(alias_at(name, b).subrange(k as int, alias_at(name, b).len() as int) =~= decimal(b));
        lemma_decimal_injective(a, b);
    } else if a != 0 || b != 0 {
        assert(alias_at(name, a).len() != alias_at(name, b).len());
    }
}

/// When the aliases of depth `0..n` are all taken, `taken` holds at least `n`
/// names: aliases of distinct depths differ.
proof fn lemma_taken_aliases_bound(name: Seq<char>, taken: Seq<Seq<char>>, n: nat)
    requires
        forall|d: nat| d < n ==> taken.contains(#[trigger] alias_at(name, d)),
    ensures
        n <= taken.len(),
{
    let f = |d: int| alias_at(name, d as nat);
    let dom = set_int_range(0, n as int);
    let img = dom.map(f);
    lemma_int_range(0, n as int);
    assert(injective_on(f, dom)) by {
        assert forall|x: int, y: int| dom.contains(x) && dom.contains(y) && #[trigger] f(x) == #[trigger] f(y)
            implies x == y by {
            lemma_alias_injective(name, x as nat, y as nat);
        }
    }
    lemma_map_size(dom, img, f);
    assert(img.subset_of(taken.to_set())) by {
        assert forall|s: Seq<char>| img.contains(s) implies taken.to_set().contains(s) by {
            let x = choose|x: int| dom.contains(x) && f(x) == s;
            assert(taken.contains(alias_at(name, x as nat)));
        }
    }
    taken.lemma_cardinality_of_set();
    lemma_len_subset(img, taken.to_set());
}

proof fn lemma_first_free_below(name: Seq<char>, taken: Seq<Seq<char>>, bound: nat)
    requires
        !taken.contains(alias_at(name, bound)),
    ensures
        exists|d: nat| d <= bound && is_first_free(name, taken, d),
    decreases bound,
{
    if forall|d: nat| d < bound ==> taken.contains(#[trigger] alias_at(name, d)) {
        assert(is_first_free(name, taken, bound));
    } else {
        let d = choose|d: nat| d < bound && !taken.contains(#[trigger] alias_at(name, d));
        lemma_first_free_below(name, taken, d);
    }
}

/// Some depth is the first free one, and it is unique.
pub proof fn lemma_first_free_exists(name: Seq<char>, taken: Seq<Seq<char>>)
    ensures
        exists|d: nat| d <= taken.len() && is_first_free(name, taken, d),
        forall|d1: nat, d2: nat|
            is_first_free(name, taken, d1) && is_first_free(name, taken, d2) ==> d1 == d2,
{
    let n = (taken.len() + 1) as nat;
    if forall|d: nat| d < n ==> taken.contains(#[trigger] alias_at(name, d)) {
        lemma_taken_aliases_bound(name, taken, n);
    }
    let b = choose|d: nat| d < n && !taken.contains(#[trigger] alias_at(name, d));
    lemma_first_free_below(name, taken, b);
    assert forall|d1: nat, d2: nat|
        is_first_free(name, taken, d1) && is_first_free(name, taken, d2) implies d1 == d2 by {
        if d1 < d2 {
            assert(taken.contains(alias_at(name, d1)));
        } else if d2 < d1 {
            assert(taken.contains(alias_at(name, d2)));
        }
    }
}

/// The first free alias is not taken.
pub proof fn lemma_first_free_alias_is_new(name: Seq<char>, taken: Seq<Seq<char>>)
    ensures
        !taken.contains(first_free_alias(name, taken)),
        !taken.contains(name) ==> first_free_alias(name, taken) == name,
{
    lemma_first_free_exists(name, taken);
    if !taken.contains(name) {
        assert(is_first_free(name, taken, 0));
    }
}

/// The Column Namer yields one name per header text, no two alike, and leaves
/// a header without repeated texts unchanged.
pub proof fn lemma_column_names_unique(header: Seq<Seq<char>>)
    ensures
        column_namer(header).len() == header.len(),
        column_namer(header).no_duplicates(),
        header.no_duplicates() ==> column_namer(header) == header,
    decreases header.len(),
{
    if header.len() > 0 {
        let init = header.drop_last();
        let prev = column_namer(init);
        lemma_column_names_unique(init);
        let name = first_free_alias(header.last(), prev);
        lemma_first_free_alias_is_new(header.last(), prev);
        let out = prev.push(name);
        assert(out.no_duplicates()) by {
            assert forall|i: int, j: int| 0 <= i < out.len() && 0 <= j < out.len() && i != j
                implies out[i] != out[j] by {
                if i == out.len() - 1 {
                    assert(prev.contains(out[j]));
                } else if j == out.len() - 1 {
                    assert(prev.contains(out[i]));
                }
            }
        }
        if header.no_duplicates() {
            assert(init.no_duplicates());
            assert(!init.contains(header.last()));
            assert(out =~= header);
        }
    }
}

/// Relies on the standard `Display` of `usize`, which writes a number in
/// decimal without sign or leading zeros.
#[verifier::external_body]
fn decimal_string(n: usize) -> (r: String)
    ensures
        r@ == decimal(n as nat),
{
    n.to_string()
}

fn alias_string(name: &str, depth: usize) -> (r: String)
    ensures
        r@ == alias_at(name@, depth as nat),
{
    if depth == 0 {
        name.to_owned()
    } else {
        let digits = decimal_string(depth);
        proof {
            reveal_strlit("_");
        }
        let with_sep = name.to_owned().concat("_");
        with_sep.concat(digits.as_str())
    }
}

fn name_taken(alias: &String, fields: &[Field]) -> (r: bool)
    ensures
        r == field_names(fields@).contains(alias@),
{
    let ghost names = field_names(fields@);
    let mut i: usize = 0;
    while i < fields.len()
        invariant
            i <= fields@.len(),
            names == field_names(fields@),
            forall|k: int| 0 <= k < i ==> names[k] != alias@,
        decreases fields@.len() - i,
    {
        if fields[i].name == *alias {
            assert(names[i as int] == alias@);
            return true;
        }
        i = i + 1;
    }
    false
}

/// A name for a new field that none of `fields` already has: `name` itself
/// when free, else `name_1`, `name_2`, ... whichever comes first.
pub fn alias_for_name(name: &str, fields: &[Field]) -> (r: String)
    ensures
        r@ == first_free_alias(name@, field_names(fields@)),
{
    let ghost taken = field_names(fields@);
    let n = fields.len();
    let mut depth: usize = 0;
    loop
        invariant
            taken == field_names(fields@),
            n == taken.len(),
            depth <= taken.len(),
            forall|d: nat| d < depth ==> taken.contains(#[trigger] alias_at(name@, d)),
        decreases taken.len() - depth,
    {
        let alias = alias_string(name, depth);
        if !name_taken(&alias, fields) {
            proof {
                assert(is_first_free(name@, taken, depth as nat));
                lemma_first_free_exists(name@, taken);
            }
            return alias;
        }
        proof {
            assert(forall|d: nat| d < depth + 1 ==> taken.contains(#[trigger] alias_at(name@, d)));
            lemma_taken_aliases_bound(name@, taken, (depth + 1) as nat);
        }
        depth = depth + 1;
    }
}

} // verus!
