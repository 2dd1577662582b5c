//! Building the text of a dump: numbers in decimal and lists of bytes.

use vstd::prelude::*;
use vstd::string::StringExecFns;

verus! {

/// `String::push` of the standard library, which appends the given
/// character to the end of the string: the characters of the string after
/// the call are those before it, followed by `ch`.
pub assume_specification[ String::push ](s: &mut String, ch: char)
    ensures
        final(s)@ == old(s)@.push(ch),
;

/// The character of the digit `d`.
pub open spec fn digit_text(d: nat) -> char {
    ((0x30 + d) as u8) as char
}

/// `n` in decimal, without leading zeros.
pub open spec fn number_text(n: nat) -> Seq<char>
    decreases n,
{
    if n < 10 {
        seq![digit_text(n)]
    } else {
        number_text(n / 10).push(digit_text(n % 10))
    }
}

/// The numbers of `bytes` in decimal, with a comma and a space between
/// them.
pub open spec fn items_text(bytes: Seq<u8>) -> Seq<char>
    decreases bytes.len(),
{
    if bytes.len() == 0 {
        Seq::empty()
    } else if bytes.len() == 1 {
        number_text(bytes[0] as nat)
    } else {
        items_text(bytes.drop_last()) + ", "@ + number_text(bytes.last() as nat)
    }
}

/// `bytes` as a list: the numbers in square brackets.
pub open spec fn list_text(bytes: Seq<u8>) -> Seq<char> {
    "["@ + items_text(bytes) + "]"@
}

/// Appends `n` in decimal.
pub fn push_number(out: &mut String, n: u32)
    ensures
        final(out)@ == old(out)@ + number_text(n as nat),
    decreases n,
{
    if n >= 10 {
        push_number(out, n / 10);
    }
    out.push(((0x30 + n % 10) as u8) as char);
    assert(out@ =~= old(out)@ + number_text(n as nat));
}

/// Appends `bytes` as a list.
pub fn push_list(out: &mut String, bytes: &[u8])
    ensures
        final(out)@ == old(out)@ + list_text(bytes@),
{
    out.append("[");
    let ghost head = out@;
    let mut i: usize = 0;
    assert(bytes@.take(0) =~= Seq::<u8>::empty());
    assert(head + Seq::<char>::empty() =~= head);
    while i < bytes.len()
        invariant
            i <= bytes@.len(),
            out@ == head + items_text(bytes@.take(i as int)),
        decreases bytes@.len() - i,
    {
        let ghost before = out@;
        if i > 0 {
            out.append(", ");
        }
        push_number(out, bytes[i] as u32);
        proof {
            let upto = bytes@.take(i + 1);
            assert(upto.drop_last() =~= bytes@.take(i as int));
            assert(upto.last() == bytes@[i as int]);
            if i > 0 {
                assert(out@ =~= head + (items_text(bytes@.take(i as int)) + ", "@ + number_text(
                    bytes@[i as int] as nat,
                )));
            } else {
                assert(items_text(bytes@.take(0)) =~= Seq::<char>::empty());
                assert(out@ =~= head + number_text(bytes@[i as int] as nat));
            }
        }
        i += 1;
    }
    assert(bytes@.take(i as int) =~= bytes@);
    out.append("]");
    assert(out@ =~= old(out)@ + list_text(bytes@));
}

} // verus!
