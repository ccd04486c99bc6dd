//! Text built from pieces, decimal numerals, and the order of texts.
use crate::table::views;
use vstd::prelude::*;

verus! {

/// `a` followed by `b`.
pub(crate) fn cat2(a: &str, b: &str) -> (r: String)
    ensures
        r@ == a@ + b@,
{
    let mut r = a.to_owned();
    r.append(b);
    r
}

/// Three pieces in a row.
pub(crate) fn cat3(a: &str, b: &str, c: &str) -> (r: String)
    ensures
        r@ == a@ + b@ + c@,
{
    let mut r = cat2(a, b);
    r.append(c);
    r
}

/// Four pieces in a row.
pub(crate) fn cat4(a: &str, b: &str, c: &str, d: &str) -> (r: String)
    ensures
        r@ == a@ + b@ + c@ + d@,
{
    let mut r = cat3(a, b, c);
    r.append(d);
    r
}

/// Five pieces in a row.
pub(crate) fn cat5(a: &str, b: &str, c: &str, d: &str, e: &str) -> (r: String)
    ensures
        r@ == a@ + b@ + c@ + d@ + e@,
{
    let mut r = cat4(a, b, c, d);
    r.append(e);
    r
}

/// Six pieces in a row.
pub(crate) fn cat6(a: &str, b: &str, c: &str, d: &str, e: &str, f: &str) -> (r: String)
    ensures
        r@ == a@ + b@ + c@ + d@ + e@ + f@,
{
    let mut r = cat5(a, b, c, d, e);
    r.append(f);
    r
}

/// Whether two texts hold the same characters.
pub(crate) fn same(a: &str, b: &str) -> (r: bool)
    ensures
        r == (a@ == b@),
{
    a.to_owned() == b.to_owned()
}

/// Whether one of the texts is `wanted`.
pub(crate) fn holds_text(texts: &Vec<String>, wanted: &str) -> (r: bool)
    ensures
        r == views(texts@).contains(wanted@),
{
    let key = wanted.to_owned();
    let mut i: usize = 0;
    while i < texts.len()
        invariant
            i <= texts@.len(),
            key@ == wanted@,
            forall|j: int| 0 <= j < i ==> #[trigger] views(texts@)[j] != wanted@,
        decreases texts@.len() - i,
    {
        assert(views(texts@)[i as int] == texts@[i as int]@);
        if texts[i] == key {
            return true;
        }
        i = i + 1;
    }
    false
}

/// The digit `d`.
pub open spec fn digit(d: nat) -> char {
    seq!['0', '1', '2', '3', '4', '5', '6', '7', '8', '9'][d as int]
}

/// The decimal numeral of `n`, without leading zeros.
pub open spec fn numeral(n: nat) -> Seq<char>
    decreases n,
{
    if n < 10 {
        seq![digit(n)]
    } else {
        numeral(n / 10).push(digit(n % 10))
    }
}

fn digit_text(d: u64) -> (r: &'static str)
    requires
        d < 10,
    ensures
        r@ == seq![digit(d as nat)],
{
    proof {
        reveal_strlit("0");
        reveal_strlit("1");
        reveal_strlit("2");
        reveal_strlit("3");
        reveal_strlit("4");
        reveal_strlit("5");
        reveal_strlit("6");
        reveal_strlit("7");
        reveal_strlit("8");
        reveal_strlit("9");
    }
    let r: &'static str = match d {
        0 => "0",
        1 => "1",
        2 => "2",
        3 => "3",
        4 => "4",
        5 => "5",
        6 => "6",
        7 => "7",
        8 => "8",
        _ => "9",
    };
    assert(r@ =~= seq![digit(d as nat)]);
    r
}

/// The decimal numeral of `n`.
pub fn decimal(n: u64) -> (r: String)
    ensures
        r@ == numeral(n as nat),
    decreases n,
{
    if n < 10 {
        digit_text(n).to_owned()
    } else {
        let mut r = decimal(n / 10);
        r.append(digit_text(n % 10));
        assert(r@ =~= numeral(n as nat));
        r
    }
}

/// The decimal numeral of a count.
pub(crate) fn decimal_usize(n: usize) -> (r: String)
    ensures
        r@ == numeral(n as nat),
{
    decimal(n as u64)
}

/// `a` comes after `b` in the lexicographic order of bytes.
pub open spec fn bytes_after(a: Seq<u8>, b: Seq<u8>) -> bool
    decreases a.len(),
{
    if a.len() == 0 {
        false
    } else if b.len() == 0 {
        true
    } else if a[0] != b[0] {
        a[0] > b[0]
    } else {
        bytes_after(a.skip(1), b.skip(1))
    }
}

/// `a` comes after `b` in the order of their UTF-8 encodings.
pub open spec fn text_after(a: Seq<char>, b: Seq<char>) -> bool {
    bytes_after(vstd::utf8::encode_utf8(a), vstd::utf8::encode_utf8(b))
}

/// Whether `a` comes after `b` in the order of their UTF-8 encodings.
pub fn is_after(a: &str, b: &str) -> (r: bool)
    ensures
        r == text_after(a@, b@),
{
    let x: &[u8] = a.as_bytes();
    let y: &[u8] = b.as_bytes();
    let mut i: usize = 0;
    proof {
        assert(x@.skip(0) =~= x@);
        assert(y@.skip(0) =~= y@);
    }
    while i < x.len()
        invariant
            i <= x@.len(),
            i <= y@.len(),
            x@ == vstd::utf8::encode_utf8(a@),
            y@ == vstd::utf8::encode_utf8(b@),
            bytes_after(x@, y@) == bytes_after(x@.skip(i as int), y@.skip(i as int)),
        decreases x@.len() - i,
    {
        if i >= y.len() {
            return true;
        }
        if x[i] != y[i] {
            return x[i] > y[i];
        }
        proof {
            assert(x@.skip(i as int).skip(1) =~= x@.skip(i + 1));
            assert(y@.skip(i as int).skip(1) =~= y@.skip(i + 1));
        }
        i = i + 1;
    }
    false
}

proof fn lemma_bytes_after_flips(a: Seq<u8>, b: Seq<u8>)
    ensures
        !(bytes_after(a, b) && bytes_after(b, a)),
        a != b ==> bytes_after(a, b) || bytes_after(b, a),
        !bytes_after(a, a),
    decreases a.len(),
{
    if a.len() == 0 || b.len() == 0 {
        if a.len() == 0 && b.len() == 0 {
            assert(a =~= b);
        }
        if a.len() > 0 {
            lemma_bytes_after_flips(a.skip(1), a.skip(1));
        }
    } else {
        lemma_bytes_after_flips(a.skip(1), b.skip(1));
        lemma_bytes_after_flips(a.skip(1), a.skip(1));
        if a[0] == b[0] && a.skip(1) == b.skip(1) {
            assert(a =~= seq![a[0]] + a.skip(1));
            assert(b =~= seq![b[0]] + b.skip(1));
        }
    }
}

/// Of two different texts exactly one comes after the other, and no text comes
/// after itself.
pub proof fn text_order_is_total(a: Seq<char>, b: Seq<char>)
    ensures
        !(text_after(a, b) && text_after(b, a)),
        a != b ==> text_after(a, b) || text_after(b, a),
        !text_after(a, a),
{
    let x = vstd::utf8::encode_utf8(a);
    let y = vstd::utf8::encode_utf8(b);
    lemma_bytes_after_flips(x, y);
    lemma_bytes_after_flips(x, x);
    vstd::utf8::encode_utf8_decode_utf8(a);
    vstd::utf8::encode_utf8_decode_utf8(b);
}

/// The number that a numeral names, read from the left.
pub open spec fn number_named(digits: Seq<char>) -> int
    decreases digits.len(),
{
    if digits.len() == 0 {
        0
    } else {
        number_named(digits.drop_last()) * 10 + (digits.last() as int - '0' as int)
    }
}

/// A numeral is made of digits, names its number, and has no leading zero.
pub proof fn a_numeral_names_its_number(n: nat)
    ensures
        number_named(numeral(n)) == n,
        numeral(n).len() > 0,
        forall|i: int| 0 <= i < numeral(n).len() ==> '0' <= #[trigger] numeral(n)[i] <= '9',
        n > 0 ==> numeral(n)[0] != '0',
        n == 0 ==> numeral(n).len() == 1,
    decreases n,
{
    if n < 10 {
        let d = seq![digit(n)];
        assert(numeral(n) =~= d);
        assert(d.drop_last() =~= Seq::<char>::empty());
        assert(number_named(d.drop_last()) == 0);
    } else {
        a_numeral_names_its_number(n / 10);
        let shorter = numeral(n / 10);
        assert(numeral(n).drop_last() =~= shorter);
        assert(numeral(n)[0] == shorter[0]);
        assert forall|i: int| 0 <= i < numeral(n).len() implies '0' <= #[trigger] numeral(n)[i]
            <= '9' by {
            if i < shorter.len() {
                assert(numeral(n)[i] == shorter[i]);
            }
        }
    }
}

/// `a` and `b` are the same up to position `i`, and there `a` goes on or has the larger
/// byte.
pub open spec fn ahead_at(a: Seq<u8>, b: Seq<u8>, i: int) -> bool {
    &&& 0 <= i < a.len()
    &&& i <= b.len()
    &&& a.take(i) == b.take(i)
    &&& i < b.len() ==> a[i] > b[i]
}

/// One sequence of bytes comes after another exactly if at the first difference it has
/// the larger byte, or goes on where the other ends.
pub proof fn the_first_difference_decides(a: Seq<u8>, b: Seq<u8>)
    ensures
        bytes_after(a, b) <==> exists|i: int| ahead_at(a, b, i),
    decreases a.len(),
{
    if a.len() > 0 && b.len() > 0 && a[0] == b[0] {
        let a1 = a.skip(1);
        let b1 = b.skip(1);
        the_first_difference_decides(a1, b1);
        if bytes_after(a1, b1) {
            let i = choose|i: int| ahead_at(a1, b1, i);
            assert forall|j: int| 0 <= j < i + 1 implies a[j] == b[j] by {
                if j > 0 {
                    assert(a1.take(i)[j - 1] == a[j]);
                    assert(b1.take(i)[j - 1] == b[j]);
                }
            }
            assert(a.take(i + 1) =~= b.take(i + 1));
            assert(ahead_at(a, b, i + 1));
        }
        if exists|i: int| ahead_at(a, b, i) {
            let i = choose|i: int| ahead_at(a, b, i);
            assert(i > 0);
            assert forall|j: int| 0 <= j < i - 1 implies a1[j] == b1[j] by {
                assert(a.take(i)[j + 1] == a1[j]);
                assert(b.take(i)[j + 1] == b1[j]);
            }
            assert(a1.take(i - 1) =~= b1.take(i - 1));
            assert(ahead_at(a1, b1, i - 1));
        }
    } else if a.len() > 0 {
        assert(a.take(0) =~= b.take(0));
        if bytes_after(a, b) {
            assert(ahead_at(a, b, 0));
        }
        if exists|i: int| ahead_at(a, b, i) {
            let i = choose|i: int| ahead_at(a, b, i);
            if i > 0 && b.len() > 0 {
                assert(a.take(i)[0] == a[0]);
                assert(b.take(i)[0] == b[0]);
            }
        }
    }
}

} // verus!
