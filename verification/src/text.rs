//! Building text: decimal numerals and joined lists.

use vstd::prelude::*;
use vstd::string::StringExecFns;

verus! {

/// The character of one decimal digit.
pub open spec fn digit_char(d: nat) -> char {
    if d == 0 { '0' }
    else if d == 1 { '1' }
    else if d == 2 { '2' }
    else if d == 3 { '3' }
    else if d == 4 { '4' }
    else if d == 5 { '5' }
    else if d == 6 { '6' }
    else if d == 7 { '7' }
    else if d == 8 { '8' }
    else { '9' }
}

/// `n` in decimal, without leading zeros.
pub open spec fn decimal_text(n: nat) -> Seq<char>
    decreases n,
{
    if n < 10 {
        seq![digit_char(n)]
    } else {
        decimal_text(n / 10).push(digit_char(n % 10))
    }
}

/// A run of `n` zeros.
pub open spec fn zeros(n: nat) -> Seq<char> {
    Seq::new(n, |i: int| '0')
}

/// The texts of a list of strings.
pub open spec fn texts(v: Seq<String>) -> Seq<Seq<char>> {
    v.map_values(|s: String| s@)
}

/// The parts in order, with `sep` between each two of them.
pub open spec fn joined(parts: Seq<Seq<char>>, sep: Seq<char>) -> Seq<char>
    decreases parts.len(),
{
    if parts.len() == 0 {
        Seq::empty()
    } else if parts.len() == 1 {
        parts[0]
    } else {
        joined(parts.drop_last(), sep) + sep + parts.last()
    }
}

/// Whether `needle` stands somewhere in `hay`.
pub open spec fn occurs_in(needle: Seq<char>, hay: Seq<char>) -> bool {
    exists|before: Seq<char>, after: Seq<char>| hay == #[trigger] (before + needle + after)
}

fn digit(d: u64) -> (r: &'static str)
    requires
        d < 10,
    ensures
        r@ == seq![digit_char(d as nat)],
{
    proof {
        reveal_strlit("0");
        reveal_strlit("1");
        reveal_strlit("2");
        reveal_strlit("3");
        reveal_strlit("4");
        reveal_strlit("5");
        reveal_strlit("6");
        reveal_strlit("7");
        reveal_strlit("8");
        reveal_strlit("9");
    }
    match d {
        0 => "0",
        1 => "1",
        2 => "2",
        3 => "3",
        4 => "4",
        5 => "5",
        6 => "6",
        7 => "7",
        8 => "8",
        _ => "9",
    }
}

/// Writes `n` in decimal.
pub fn decimal(n: u64) -> (r: String)
    ensures
        r@ == decimal_text(n as nat),
    decreases n,
{
    if n < 10 {
        String::from_str(digit(n))
    } else {
        let mut s = decimal(n / 10);
        s.append(digit(n % 10));
        s
    }
}

/// Appends `n` zeros.
pub(crate) fn append_zeros(s: &mut String, n: u32)
    ensures
        final(s)@ == old(s)@ + zeros(n as nat),
{
    proof {
        reveal_strlit("0");
    }
    let ghost before = s@;
    assert(before + zeros(0) == before);
    for i in 0..n
        invariant
            s@ == before + zeros(i as nat),
            "0"@ == seq!['0'],
    {
        s.append("0");
        assert(s@ == before + zeros((i + 1) as nat));
    }
}

/// Joins the parts with `sep` between each two of them.
pub fn join(parts: &Vec<String>, sep: &str) -> (r: String)
    ensures
        r@ == joined(texts(parts@), sep@),
{
    let ghost all = texts(parts@);
    let mut out = String::new();
    for i in 0..parts.len()
        invariant
            all == texts(parts@),
            out@ == joined(all.take(i as int), sep@),
    {
        if i != 0 {
            out.append(sep);
        }
        out.append(parts[i].as_str());
        assert(all.take(i + 1).drop_last() == all.take(i as int));
        assert(all.take(i + 1).last() == parts[i as int]@);
    }
    assert(all.take(parts@.len() as int) == all);
    out
}

/// Every part of a joined list stands in the joined text.
pub proof fn joined_holds_each_part(parts: Seq<Seq<char>>, sep: Seq<char>, i: int)
    requires
        0 <= i < parts.len(),
    ensures
        occurs_in(parts[i], joined(parts, sep)),
    decreases parts.len(),
{
    let whole = joined(parts, sep);
    if parts.len() == 1 {
        assert(whole == Seq::empty() + parts[i] + Seq::empty());
    } else if i == parts.len() - 1 {
        let before = joined(parts.drop_last(), sep) + sep;
        assert(whole == before + parts[i] + Seq::empty());
    } else {
        let head = parts.drop_last();
        joined_holds_each_part(head, sep, i);
        let (before, after) = choose|before: Seq<char>, after: Seq<char>|
            joined(head, sep) == #[trigger] (before + head[i] + after);
        assert(whole == before + parts[i] + (after + sep + parts.last()));
    }
}

/// What stands in a text stands in every longer text around it.
pub proof fn occurs_in_wider(needle: Seq<char>, hay: Seq<char>, before: Seq<char>, after: Seq<char>)
    requires
        occurs_in(needle, hay),
    ensures
        occurs_in(needle, before + hay + after),
{
    let (b, a) = choose|b: Seq<char>, a: Seq<char>| hay == #[trigger] (b + needle + a);
    assert(before + hay + after == (before + b) + needle + (a + after));
}

/// The number that a row of digits stands for.
pub open spec fn reads_as(s: Seq<char>) -> int
    decreases s.len(),
{
    if s.len() == 0 {
        0
    } else {
        10 * reads_as(s.drop_last()) + (s.last() as int - '0' as int)
    }
}

/// A decimal is a row of digits that reads as its number and starts with a zero only where it is
/// that zero; its last digit is what the number leaves over ten, and the rest is the decimal of
/// the tens.
pub proof fn decimal_reads_back(n: nat)
    ensures
        reads_as(decimal_text(n)) == n,
        decimal_text(n).len() > 0,
        forall|i: int|
            0 <= i < decimal_text(n).len() ==> '0' as int <= #[trigger] decimal_text(n)[i] as int
                <= '9' as int,
        n > 0 ==> decimal_text(n)[0] != '0',
        decimal_text(n).last() as int == '0' as int + n % 10,
        n < 10 ==> decimal_text(n).len() == 1,
        n >= 10 ==> decimal_text(n).drop_last() == decimal_text(n / 10),
    decreases n,
{
    let s = decimal_text(n);
    if n < 10 {
        assert(s.drop_last() == Seq::<char>::empty());
        reveal_with_fuel(reads_as, 2);
    } else {
        decimal_reads_back(n / 10);
        assert(s.drop_last() == decimal_text(n / 10));
    }
}

/// Different numbers have different decimals.
pub proof fn decimals_tell_numbers_apart(m: nat, n: nat)
    ensures
        decimal_text(m) == decimal_text(n) ==> m == n,
{
    decimal_reads_back(m);
    decimal_reads_back(n);
}

/// The texts of a list are those of its strings, one for one.
pub proof fn texts_are_one_for_one(v: Seq<String>, i: int)
    ensures
        texts(v).len() == v.len(),
        0 <= i < v.len() ==> texts(v)[i] == v[i]@,
{
}

/// A run of zeros is as long as it says, and nothing but zeros.
pub proof fn zeros_are_zeros(n: nat, i: int)
    ensures
        zeros(n).len() == n,
        0 <= i < n ==> zeros(n)[i] == '0',
{
}

/// Joining nothing gives nothing, and joining one part gives it; joining two lists one behind the
/// other puts the separator once between what each gives.
pub proof fn joining_is_concatenation(
    part: Seq<char>,
    front: Seq<Seq<char>>,
    back: Seq<Seq<char>>,
    sep: Seq<char>,
)
    ensures
        joined(Seq::empty(), sep) == Seq::<char>::empty(),
        joined(seq![part], sep) == part,
        front.len() > 0 && back.len() > 0 ==> joined(front + back, sep) == joined(front, sep) + sep
            + joined(back, sep),
    decreases back.len(),
{
    if front.len() > 0 && back.len() == 1 {
        assert((front + back).drop_last() == front);
        assert((front + back).last() == back[0]);
    } else if front.len() > 0 && back.len() > 1 {
        joining_is_concatenation(part, front, back.drop_last(), sep);
        assert((front + back).drop_last() == front + back.drop_last());
        assert(joined(front + back, sep) == joined(front, sep) + sep + joined(back, sep));
    }
}

/// A joined text is as long as its parts and the separators between them.
pub proof fn joined_length_grows_by_part(parts: Seq<Seq<char>>, last: Seq<char>, sep: Seq<char>)
    requires
        parts.len() > 0,
    ensures
        joined(parts.push(last), sep).len() == joined(parts, sep).len() + sep.len() + last.len(),
{
    assert(parts.push(last).drop_last() == parts);
}

/// A number that was written reads as itself, in digits alone, with no zero in front.
pub proof fn written_number_reads_back(n: u64, r: String)
    requires
        call_ensures(decimal, (n,), r),
    ensures
        r@.len() > 0,
        reads_as(r@) == n,
        forall|i: int| 0 <= i < r@.len() ==> '0' as int <= #[trigger] r@[i] as int <= '9' as int,
        r@.len() > 1 ==> r@[0] != '0',
{
    decimal_reads_back(n as nat);
}

/// A joined list of one string is that string, and one string more at its end is the separator
/// and that string more at the end of the text.
pub proof fn joined_string_grows_by_part(
    parts: Vec<String>,
    longer: Vec<String>,
    last: String,
    sep: &str,
    r: String,
    s: String,
)
    requires
        call_ensures(join, (&parts, sep), r),
        call_ensures(join, (&longer, sep), s),
        longer@ == parts@.push(last),
    ensures
        parts@.len() == 0 ==> r@.len() == 0 && s@ == last@,
        parts@.len() > 0 ==> s@ == r@ + sep@ + last@,
{
    assert(texts(longer@) == texts(parts@).push(last@));
    joining_is_concatenation(last@, texts(parts@), seq![last@], sep@);
    assert(texts(parts@).push(last@) == texts(parts@) + seq![last@]);
    if parts@.len() == 0 {
        assert(texts(longer@) == seq![last@]);
        assert(texts(parts@) == Seq::<Seq<char>>::empty());
    }
}

} // verus!
