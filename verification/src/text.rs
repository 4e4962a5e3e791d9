//! Text helpers shared by the store, the engine and the notifier.

use vstd::prelude::*;

verus! {

/// The texts of `parts` written one after another with `sep` between
/// neighbours. Nothing precedes the first part or follows the last one.
pub open spec fn join_text(parts: Seq<Seq<char>>, sep: Seq<char>) -> Seq<char>
    decreases parts.len(),
{
    if parts.len() == 0 {
        Seq::<char>::empty()
    } else if parts.len() == 1 {
        parts[0]
    } else {
        join_text(parts.drop_last(), sep) + sep + parts.last()
    }
}

/// The character that stands for a single decimal digit.
pub open spec fn digit_char(d: int) -> char {
    if d == 0 {
        '0'
    } else if d == 1 {
        '1'
    } else if d == 2 {
        '2'
    } else if d == 3 {
        '3'
    } else if d == 4 {
        '4'
    } else if d == 5 {
        '5'
    } else if d == 6 {
        '6'
    } else if d == 7 {
        '7'
    } else if d == 8 {
        '8'
    } else {
        '9'
    }
}

/// The decimal digits of a natural number, most significant first, without
/// leading zeros (zero itself is the single digit `0`).
pub open spec fn digits_text(n: nat) -> Seq<char>
    decreases n,
{
    if n < 10 {
        seq![digit_char(n as int)]
    } else {
        digits_text(n / 10).push(digit_char((n % 10) as int))
    }
}

/// The decimal text of an integer: a minus sign for negative numbers, then
/// the digits of its magnitude.
pub open spec fn decimal_text(n: int) -> Seq<char> {
    if n < 0 {
        seq!['-'] + digits_text((-n) as nat)
    } else {
        digits_text(n as nat)
    }
}

/// The views of a sequence of owned texts.
pub open spec fn texts_view(v: Seq<String>) -> Seq<Seq<char>> {
    v.map_values(|s: String| s@)
}

/// The views of a sequence of borrowed texts.
pub open spec fn strs_view(v: Seq<&str>) -> Seq<Seq<char>> {
    v.map_values(|s: &str| s@)
}

/// Whether two texts hold the same characters.
pub fn same_text(a: &str, b: &str) -> (r: bool)
    ensures
        r == (a@ == b@),
{
    let x = a.to_owned();
    let y = b.to_owned();
    x == y
}

/// Whether `needle` is one of `names`.
pub fn contains_text(names: &[&str], needle: &str) -> (r: bool)
    ensures
        r == strs_view(names@).contains(needle@),
{
    let mut i: usize = 0;
    while i < names.len()
        invariant
            i <= names.len(),
            forall|j: int| 0 <= j < i ==> strs_view(names@)[j] != needle@,
        decreases names.len() - i,
    {
        if same_text(names[i], needle) {
            assert(strs_view(names@)[i as int] == needle@);
            return true;
        }
        i += 1;
    }
    false
}

/// Joins `parts` with `sep` between neighbours.
pub fn join(parts: &Vec<String>, sep: &str) -> (r: String)
    ensures
        r@ == join_text(texts_view(parts@), sep@),
{
    let mut out = String::new();
    let mut i: usize = 0;
    while i < parts.len()
        invariant
            i <= parts.len(),
            out@ == join_text(texts_view(parts@).take(i as int), sep@),
        decreases parts.len() - i,
    {
        let ghost before = texts_view(parts@).take(i as int);
        let ghost after = texts_view(parts@).take(i as int + 1);
        proof {
            assert(after.drop_last() =~= before);
            assert(after.last() == parts@[i as int]@);
        }
        if i > 0 {
            out.append(sep);
        } else {
            proof {
                assert(after.len() == 1);
                assert(out@ + parts@[i as int]@ =~= parts@[i as int]@);
            }
        }
        out.append(parts[i].as_str());
        i += 1;
    }
    proof {
        assert(texts_view(parts@).take(parts.len() as int) =~= texts_view(parts@));
    }
    out
}

fn digit_str(d: u64) -> (r: &'static str)
    requires
        d < 10,
    ensures
        r@ == seq![digit_char(d as int)],
{
    proof {
        reveal_strlit("0");
        reveal_strlit("1");
        reveal_strlit("2");
        reveal_strlit("3");
        reveal_strlit("4");
        reveal_strlit("5");
        reveal_strlit("6");
        reveal_strlit("7");
        reveal_strlit("8");
        reveal_strlit("9");
    }
    let r = if d == 0 {
        "0"
    } else if d == 1 {
        "1"
    } else if d == 2 {
        "2"
    } else if d == 3 {
        "3"
    } else if d == 4 {
        "4"
    } else if d == 5 {
        "5"
    } else if d == 6 {
        "6"
    } else if d == 7 {
        "7"
    } else if d == 8 {
        "8"
    } else {
        "9"
    };
    assert(r@ =~= seq![digit_char(d as int)]);
    r
}

fn push_digits(out: &mut String, n: u64)
    ensures
        final(out)@ == old(out)@ + digits_text(n as nat),
    decreases n,
{
    if n >= 10 {
        push_digits(out, n / 10);
    }
    out.append(digit_str(n % 10));
    proof {
        if n >= 10 {
            assert(final(out)@ =~= old(out)@ + digits_text(n as nat));
        } else {
            assert(final(out)@ =~= old(out)@ + digits_text(n as nat));
        }
    }
}

/// The decimal text of a signed 64-bit integer.
pub fn decimal(n: i64) -> (r: String)
    ensures
        r@ == decimal_text(n as int),
{
    let mut out = String::new();
    if n < 0 {
        proof {
            reveal_strlit("-");
        }
        out.append("-");
        let magnitude: u64 = ((-(n + 1)) as u64) + 1;
        push_digits(&mut out, magnitude);
        assert(out@ =~= decimal_text(n as int));
    } else {
        push_digits(&mut out, n as u64);
        assert(out@ =~= decimal_text(n as int));
    }
    out
}

/// A comma-separated run of `amount` question marks, one per value that a
/// parameterised query binds.
pub fn build_placeholder(amount: usize) -> (r: String)
    ensures
        r@ == join_text(Seq::new(amount as nat, |i: int| "?"@), ","@),
{
    let mut out = String::new();
    let ghost marks = Seq::new(amount as nat, |i: int| "?"@);
    let mut i: usize = 0;
    while i < amount
        invariant
            i <= amount,
            marks == Seq::new(amount as nat, |i: int| "?"@),
            out@ == join_text(marks.take(i as int), ","@),
        decreases amount - i,
    {
        proof {
            assert(marks.take(i as int + 1).drop_last() =~= marks.take(i as int));
            assert(marks.take(i as int + 1).last() == "?"@);
        }
        if i > 0 {
            out.append(",");
        } else {
            proof {
                assert(out@ + "?"@ =~= "?"@);
            }
        }
        out.append("?");
        i += 1;
    }
    proof {
        assert(marks.take(amount as int) =~= marks);
    }
    out
}

} // verus!
