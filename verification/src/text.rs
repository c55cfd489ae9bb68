//! Text that the compiler puts together: decimal numbers, messages and the
//! suffixed names that keep table entries apart.

use vstd::prelude::*;
use vstd::string::StringExecFns;

verus! {

/// The character of a decimal digit.
pub open spec fn digit(d: nat) -> char {
    (48 + d) as char
}

/// The decimal notation of a number, without leading zeros.
pub open spec fn decimal(n: nat) -> Seq<char>
    decreases n,
{
    if n < 10 {
        seq![digit(n)]
    } else {
        decimal(n / 10).push(digit(n % 10))
    }
}

/// A name made distinct by a number behind a dash.
pub open spec fn suffixed(name: Seq<char>, n: nat) -> Seq<char> {
    name + "-"@ + decimal(n)
}

/// Is this the first number, from the table's size on, that makes the name one
/// that is not taken?
pub open spec fn frees(taken: Set<Seq<char>>, name: Seq<char>, n: nat) -> bool {
    &&& taken.len() <= n
    &&& !taken.contains(suffixed(name, n))
    &&& forall|j: nat| taken.len() <= j < n ==> taken.contains(#[trigger] suffixed(name, j))
}

/// The first number, from the table's size on, that makes the name one that is not
/// taken.
pub open spec fn first_free(taken: Set<Seq<char>>, name: Seq<char>) -> nat {
    choose|n: nat| frees(taken, name, n)
}

/// The name under which a new entry goes into a table that holds `taken`: its
/// own name where that is free, otherwise the name with a number behind it.
pub open spec fn entry_name(taken: Set<Seq<char>>, name: Seq<char>) -> Seq<char> {
    if taken.contains(name) {
        suffixed(name, first_free(taken, name))
    } else {
        name
    }
}

fn digit_text(d: u128) -> (r: &'static str)
    requires
        d < 10,
    ensures
        r@ == seq![digit(d as nat)],
{
    proof {
        reveal_strlit("0");
        reveal_strlit("1");
        reveal_strlit("2");
        reveal_strlit("3");
        reveal_strlit("4");
        reveal_strlit("5");
        reveal_strlit("6");
        reveal_strlit("7");
        reveal_strlit("8");
        reveal_strlit("9");
    }
    if d == 0 {
        "0"
    } else if d == 1 {
        "1"
    } else if d == 2 {
        "2"
    } else if d == 3 {
        "3"
    } else if d == 4 {
        "4"
    } else if d == 5 {
        "5"
    } else if d == 6 {
        "6"
    } else if d == 7 {
        "7"
    } else if d == 8 {
        "8"
    } else {
        "9"
    }
}

/// Writes a number in decimal notation.
pub fn decimal_text(n: u128) -> (r: String)
    ensures
        r@ == decimal(n as nat),
    decreases n,
{
    if n < 10 {
        digit_text(n).to_owned()
    } else {
        let mut r = decimal_text(n / 10);
        r.append(digit_text(n % 10));
        r
    }
}

/// Two pieces of text in a row.
pub fn concat2(a: &str, b: &str) -> (r: String)
    ensures
        r@ == a@ + b@,
{
    let mut r = a.to_owned();
    r.append(b);
    r
}

/// Three pieces of text in a row.
pub fn concat3(a: &str, b: &str, c: &str) -> (r: String)
    ensures
        r@ == a@ + b@ + c@,
{
    let mut r = a.to_owned();
    r.append(b);
    r.append(c);
    r
}

/// Five pieces of text in a row.
pub fn concat5(a: &str, b: &str, c: &str, d: &str, e: &str) -> (r: String)
    ensures
        r@ == a@ + b@ + c@ + d@ + e@,
{
    let mut r = a.to_owned();
    r.append(b);
    r.append(c);
    r.append(d);
    r.append(e);
    r
}

/// Are the two pieces of text the same?
pub fn same(a: &str, b: &str) -> (r: bool)
    ensures
        r == (a@ == b@),
{
    a.to_owned() == b.to_owned()
}

/// A name with a dash and a number behind it.
pub fn suffix(name: &str, n: u128) -> (r: String)
    ensures
        r@ == suffixed(name@, n as nat),
{
    let digits = decimal_text(n);
    concat3(name, "-", digits.as_str())
}

/// A number has at least one digit, and nothing but digits.
pub proof fn law_decimal_digits(n: nat)
    ensures
        decimal(n).len() > 0,
        forall|i: int| 0 <= i < decimal(n).len() ==> '0' <= #[trigger] decimal(n)[i] <= '9',
    decreases n,
{
    if n >= 10 {
        law_decimal_digits(n / 10);
    }
}

/// Different numbers are written differently.
pub proof fn law_decimal_injective(m: nat, n: nat)
    requires
        decimal(m) == decimal(n),
    ensures
        m == n,
    decreases m,
{
    law_decimal_digits(m / 10);
    law_decimal_digits(n / 10);
    assert(decimal(m).last() == digit(m % 10));
    assert(decimal(n).last() == digit(n % 10));
    assert(m % 10 == n % 10);
    if m >= 10 && n >= 10 {
        assert(decimal(m).drop_last() =~= decimal(m / 10));
        assert(decimal(n).drop_last() =~= decimal(n / 10));
        law_decimal_injective(m / 10, n / 10);
    }
}

/// A name with a number behind it tells both: no other name and number give the
/// same.
pub proof fn law_suffixed_injective(a: Seq<char>, m: nat, b: Seq<char>, n: nat)
    requires
        suffixed(a, m) == suffixed(b, n),
    ensures
        a == b,
        m == n,
{
    reveal_strlit("-");
    let s = suffixed(a, m);
    law_decimal_digits(m);
    law_decimal_digits(n);
    let (start_a, start_b) = (a + "-"@, b + "-"@);
    assert(start_a.len() == a.len() + 1 && start_b.len() == b.len() + 1);
    assert(s == start_a + decimal(m) && s == start_b + decimal(n));
    assert(s.len() == start_a.len() + decimal(m).len());
    assert(s.len() == start_b.len() + decimal(n).len());
    assert(s[a.len() as int] == start_a[a.len() as int] && s[a.len() as int] == '-');
    assert(s[b.len() as int] == start_b[b.len() as int] && s[b.len() as int] == '-');
    if a.len() < b.len() {
        let i = b.len() - start_a.len();
        assert(0 <= i < decimal(m).len());
        assert((start_a + decimal(m))[start_a.len() + i] == decimal(m)[i]);
    } else if b.len() < a.len() {
        let i = a.len() - start_b.len();
        assert(0 <= i < decimal(n).len());
        assert((start_b + decimal(n))[start_b.len() + i] == decimal(n)[i]);
    }
    assert(s.take(a.len() as int) =~= a);
    assert(s.take(b.len() as int) =~= b);
    assert(s.skip(a.len() as int + 1) =~= decimal(m));
    assert(s.skip(b.len() as int + 1) =~= decimal(n));
    law_decimal_injective(m, n);
}

/// Different numbers make different names: no more of them are taken than there
/// are names.
pub proof fn lemma_taken_count(taken: Set<Seq<char>>, name: Seq<char>, start: nat, count: nat)
    requires
        taken.finite(),
        forall|j: nat|
            start <= j < start + count ==> taken.contains(#[trigger] suffixed(name, j)),
    ensures
        count <= taken.len(),
    decreases count,
{
    if count > 0 {
        let last = suffixed(name, (start + count - 1) as nat);
        assert forall|j: nat| start <= j < start + count - 1 implies taken.remove(last).contains(
            #[trigger] suffixed(name, j),
        ) by {
            if suffixed(name, j) == last {
                law_suffixed_injective(name, j, name, (start + count - 1) as nat);
            }
        }
        lemma_taken_count(taken.remove(last), name, start, (count - 1) as nat);
    }
}

/// There is one first number that makes a name one that is not taken.
pub proof fn lemma_first_free(taken: Set<Seq<char>>, name: Seq<char>, n: nat)
    requires
        frees(taken, name, n),
    ensures
        first_free(taken, name) == n,
{
    let m = first_free(taken, name);
    assert(frees(taken, name, m));
    if m < n {
        assert(taken.contains(suffixed(name, m)));
    } else if n < m {
        assert(taken.contains(suffixed(name, n)));
    }
}

proof fn lemma_some_free(taken: Set<Seq<char>>, name: Seq<char>, count: nat) -> (n: nat)
    requires
        taken.finite(),
        count <= taken.len() + 1,
        forall|j: nat|
            taken.len() <= j < taken.len() + count ==> taken.contains(
                #[trigger] suffixed(name, j),
            ),
    ensures
        frees(taken, name, n),
    decreases taken.len() + 1 - count,
{
    lemma_taken_count(taken, name, taken.len(), count);
    let n = taken.len() + count;
    if taken.contains(suffixed(name, n)) {
        lemma_some_free(taken, name, count + 1)
    } else {
        n
    }
}

/// The number that a text of digits stands for.
pub open spec fn number_of(text: Seq<char>) -> int
    decreases text.len(),
{
    if text.len() == 0 {
        0
    } else {
        number_of(text.drop_last()) * 10 + (text.last() as int - '0' as int)
    }
}

/// The decimal notation of a number stands for that number, and does not begin with
/// a zero unless it is zero.
pub proof fn law_decimal_stands_for_its_number(n: nat)
    ensures
        number_of(decimal(n)) == n,
        decimal(n).len() > 0,
        n > 0 ==> decimal(n)[0] != '0',
    decreases n,
{
    reveal_with_fuel(number_of, 2);
    if n < 10 {
        assert(decimal(n).drop_last() =~= Seq::empty());
    } else {
        law_decimal_stands_for_its_number(n / 10);
        assert(decimal(n).drop_last() =~= decimal(n / 10));
    }
}

/// A name with a number begins with the name, and ends with the decimal notation of
/// the number behind a dash.
pub proof fn law_numbers_stand_behind_a_dash(name: Seq<char>, n: nat)
    ensures
        ({
            let text = suffixed(name, n);
            let dash = name.len() as int;
            &&& text.len() > dash + 1
            &&& text.take(dash) =~= name
            &&& text[dash] == '-'
            &&& number_of(text.skip(dash + 1)) == n
        }),
{
    reveal_strlit("-");
    law_decimal_stands_for_its_number(n);
    let text = suffixed(name, n);
    assert(text.skip(name.len() as int + 1) =~= decimal(n));
}

/// A new entry gets its own name where that is free. Where it is not, it gets the
/// name with the smallest number, from the size of the table on, that makes it free.
pub proof fn law_entries_get_the_first_free_name(taken: Set<Seq<char>>, name: Seq<char>, n: nat)
    requires
        taken.finite(),
        taken.len() <= n,
        !taken.contains(suffixed(name, n)),
        forall|j: nat| taken.len() <= j < n ==> taken.contains(#[trigger] suffixed(name, j)),
    ensures
        !taken.contains(name) ==> entry_name(taken, name) == name,
        taken.contains(name) ==> entry_name(taken, name) == suffixed(name, n),
{
    assert(frees(taken, name, n));
    lemma_first_free(taken, name, n);
    let m = first_free(taken, name);
    assert(frees(taken, name, m));
    if m < n {
        assert(taken.contains(suffixed(name, m)));
    } else if n < m {
        assert(taken.contains(suffixed(name, n)));
    }
}

/// The name of a new entry is not taken.
pub proof fn law_entry_name_is_free(taken: Set<Seq<char>>, name: Seq<char>)
    requires
        taken.finite(),
    ensures
        !taken.contains(entry_name(taken, name)),
{
    let n = lemma_some_free(taken, name, 0);
    lemma_first_free(taken, name, n);
}

/// A new entry, under the name that it gets, leaves all entries of a table as
/// they were.
pub proof fn law_new_entry_keeps_others<V>(table: Map<Seq<char>, V>, name: Seq<char>, value: V)
    requires
        table.dom().finite(),
    ensures
        table.submap_of(table.insert(entry_name(table.dom(), name), value)),
        table.insert(entry_name(table.dom(), name), value).len() == table.len() + 1,
{
    let entry = entry_name(table.dom(), name);
    law_entry_name_is_free(table.dom(), name);
    assert(table.insert(entry, value).dom() =~= table.dom().insert(entry));
}

} // verus!
