//! Small verified helpers on text.

use vstd::prelude::*;
use vstd::string::*;

verus! {

/// Whether `text` reads exactly as `word`.
pub fn text_is(text: &str, word: &str) -> (same: bool)
    ensures
        same == (text@ == word@),
{
    let left = String::from_str(text);
    let right = String::from_str(word);
    left == right
}

/// `head` followed by `tail`.
pub fn join(head: &str, tail: &str) -> (joined: String)
    ensures
        joined@ == head@ + tail@,
{
    let mut joined = String::from_str(head);
    joined.append(tail);
    joined
}

/// What each text of a list reads as.
pub open spec fn texts(list: Seq<String>) -> Seq<Seq<char>> {
    Seq::new(list.len(), |k: int| list[k]@)
}

/// The numeral of one digit.
pub open spec fn digit_text(d: nat) -> Seq<char> {
    if d == 0 {
        "0"@
    } else if d == 1 {
        "1"@
    } else if d == 2 {
        "2"@
    } else if d == 3 {
        "3"@
    } else if d == 4 {
        "4"@
    } else if d == 5 {
        "5"@
    } else if d == 6 {
        "6"@
    } else if d == 7 {
        "7"@
    } else if d == 8 {
        "8"@
    } else {
        "9"@
    }
}

/// The decimal numeral of a number: its digits, the highest first, with no
/// leading zero.
pub open spec fn decimal_text(n: nat) -> Seq<char>
    decreases n,
{
    if n < 10 {
        digit_text(n)
    } else {
        decimal_text(n / 10) + digit_text(n % 10)
    }
}

fn digit(d: usize) -> (text: &'static str)
    requires
        d < 10,
    ensures
        text@ == digit_text(d as nat),
{
    if d == 0 {
        "0"
    } else if d == 1 {
        "1"
    } else if d == 2 {
        "2"
    } else if d == 3 {
        "3"
    } else if d == 4 {
        "4"
    } else if d == 5 {
        "5"
    } else if d == 6 {
        "6"
    } else if d == 7 {
        "7"
    } else if d == 8 {
        "8"
    } else {
        "9"
    }
}

/// Writes a number in decimal.
pub fn decimal(n: usize) -> (text: String)
    ensures
        text@ == decimal_text(n as nat),
    decreases n,
{
    if n < 10 {
        String::from_str(digit(n))
    } else {
        let mut text = decimal(n / 10);
        text.append(digit(n % 10));
        text
    }
}


/// The items with `sep` between each two of them.
pub open spec fn separated(items: Seq<Seq<char>>, sep: Seq<char>) -> Seq<char>
    decreases items.len(),
{
    if items.len() == 0 {
        Seq::empty()
    } else if items.len() == 1 {
        items[0]
    } else {
        separated(items.drop_last(), sep) + sep + items.last()
    }
}

/// For each pair of an item of `left` and the item of `right` at the same
/// place, in order: `open`, the first, `mid`, the second, `close`.
pub open spec fn paired(
    left: Seq<Seq<char>>,
    right: Seq<Seq<char>>,
    open: Seq<char>,
    mid: Seq<char>,
    close: Seq<char>,
) -> Seq<char>
    decreases left.len(),
{
    if left.len() == 0 {
        Seq::empty()
    } else {
        paired(left.drop_last(), right.drop_last(), open, mid, close) + open + left.last() + mid
            + right.last() + close
    }
}

/// Appends the items to `out`, with `sep` between each two of them.
pub fn append_separated(out: &mut String, items: &Vec<String>, sep: &str)
    ensures
        final(out)@ == old(out)@ + separated(texts(items@), sep@),
{
    let ghost base = out@;
    let ghost all = texts(items@);
    let mut i: usize = 0;
    proof {
        assert(base + separated(all.take(0), sep@) =~= base);
    }
    while i < items.len()
        invariant
            i <= items.len(),
            all == texts(items@),
            out@ == base + separated(all.take(i as int), sep@),
        decreases items.len() - i,
    {
        proof {
            assert(all.take(i + 1).drop_last() =~= all.take(i as int));
            assert(all.take(i + 1).last() == items@[i as int]@);
        }
        if i > 0 {
            out.append(sep);
        }
        out.append(items[i].as_str());
        proof {
            assert(out@ =~= base + separated(all.take(i + 1), sep@));
        }
        i += 1;
    }
    proof {
        assert(all.take(i as int) =~= all);
    }
}

/// Appends to `out`, for each pair of items at the same place: `open`, the
/// item of `left`, `mid`, the item of `right`, `close`.
pub fn append_paired(
    out: &mut String,
    left: &Vec<String>,
    right: &Vec<String>,
    open: &str,
    mid: &str,
    close: &str,
)
    requires
        left@.len() == right@.len(),
    ensures
        final(out)@ == old(out)@ + paired(texts(left@), texts(right@), open@, mid@, close@),
{
    let ghost base = out@;
    let ghost xs = texts(left@);
    let ghost ys = texts(right@);
    let mut i: usize = 0;
    proof {
        assert(base + paired(xs.take(0), ys.take(0), open@, mid@, close@) =~= base);
    }
    while i < left.len()
        invariant
            i <= left.len(),
            left@.len() == right@.len(),
            xs == texts(left@),
            ys == texts(right@),
            out@ == base + paired(xs.take(i as int), ys.take(i as int), open@, mid@, close@),
        decreases left.len() - i,
    {
        proof {
            assert(xs.take(i + 1).drop_last() =~= xs.take(i as int));
            assert(ys.take(i + 1).drop_last() =~= ys.take(i as int));
            assert(xs.take(i + 1).last() == left@[i as int]@);
            assert(ys.take(i + 1).last() == right@[i as int]@);
        }
        out.append(open);
        out.append(left[i].as_str());
        out.append(mid);
        out.append(right[i].as_str());
        out.append(close);
        proof {
            assert(out@ =~= base + paired(
                xs.take(i + 1),
                ys.take(i + 1),
                open@,
                mid@,
                close@,
            ));
        }
        i += 1;
    }
    proof {
        assert(xs.take(i as int) =~= xs);
        assert(ys.take(i as int) =~= ys);
    }
}


/// For each item, in order: `open`, the item, `close`.
pub open spec fn wrapped(items: Seq<Seq<char>>, open: Seq<char>, close: Seq<char>) -> Seq<char>
    decreases items.len(),
{
    if items.len() == 0 {
        Seq::empty()
    } else {
        wrapped(items.drop_last(), open, close) + open + items.last() + close
    }
}

/// Appends to `out`, for each item: `open`, the item, `close`.
pub fn append_wrapped(out: &mut String, items: &Vec<String>, open: &str, close: &str)
    ensures
        final(out)@ == old(out)@ + wrapped(texts(items@), open@, close@),
{
    let ghost base = out@;
    let ghost all = texts(items@);
    let mut i: usize = 0;
    proof {
        assert(base + wrapped(all.take(0), open@, close@) =~= base);
    }
    while i < items.len()
        invariant
            i <= items.len(),
            all == texts(items@),
            out@ == base + wrapped(all.take(i as int), open@, close@),
        decreases items.len() - i,
    {
        proof {
            assert(all.take(i + 1).drop_last() =~= all.take(i as int));
            assert(all.take(i + 1).last() == items@[i as int]@);
        }
        out.append(open);
        out.append(items[i].as_str());
        out.append(close);
        proof {
            assert(out@ =~= base + wrapped(all.take(i + 1), open@, close@));
        }
        i += 1;
    }
    proof {
        assert(all.take(i as int) =~= all);
    }
}

} // verus!
