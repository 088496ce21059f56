//! Small pieces of text that both wire formats are built from: decimal
//! numbers, the printable range of US-ASCII, and the message identifier.

use vstd::prelude::*;
use vstd::std_specs::iter::IteratorSpec;

verus! {

/// The longest message identifier that RFC 5424 admits.
pub const MESSAGE_ID_MAX: usize = 32;

/// The character of a decimal digit. Meant for `d < 10`.
pub open spec fn digit_char(d: nat) -> char {
    (48 + d) as char
}

/// The decimal numeral of `n`, without sign, padding or leading zeros.
pub open spec fn decimal(n: nat) -> Seq<char>
    decreases n,
{
    if n < 10 {
        seq![digit_char(n)]
    } else {
        decimal(n / 10).push(digit_char(n % 10))
    }
}

/// Whether `c` is printable US-ASCII as RFC 5424 defines it: a code from 33
/// to 126. The space (32) and DEL (127) are outside.
pub open spec fn is_printable(c: char) -> bool {
    33 <= c as u32 <= 126
}

/// The printable characters of `s`, in their order.
pub open spec fn printable_only(s: Seq<char>) -> Seq<char> {
    s.filter(|c: char| is_printable(c))
}

/// The message identifier made from `s`: what is not printable is dropped
/// first, and of what is left the first 32 characters are kept. A dropped
/// character therefore uses up none of the 32.
pub open spec fn message_id_text(s: Seq<char>) -> Seq<char> {
    let kept = printable_only(s);
    if kept.len() <= MESSAGE_ID_MAX {
        kept
    } else {
        kept.subrange(0, MESSAGE_ID_MAX as int)
    }
}

/// The field that stands for a message identifier: the single hyphen where
/// none was given, else the identifier made from the given text.
pub open spec fn message_id_field(id: Option<Seq<char>>) -> Seq<char> {
    match id {
        Some(s) => message_id_text(s),
        None => seq!['-'],
    }
}

/// `String::push` of std: appends one character to the end of the string.
#[verifier::external_body]
pub(crate) fn push_char(s: &mut String, c: char)
    ensures
        final(s)@ == old(s)@.push(c),
{
    s.push(c);
}

/// Checks if a character is printable US-ASCII.
pub fn is_us_print_ascii(c: &char) -> (b: bool)
    ensures
        b == is_printable(*c),
        b == (33 <= *c as u32 && *c as u32 <= 126),
{
    let code: u32 = *c as u32;
    33 <= code && code <= 126
}

/// Appends the decimal numeral of `n` to `out`.
pub fn push_decimal(out: &mut String, n: u64)
    ensures
        final(out)@ == old(out)@ + decimal(n as nat),
    decreases n,
{
    if n >= 10 {
        push_decimal(out, n / 10);
    }
    let low: u8 = (n % 10) as u8;
    let c: char = (48u8 + low) as char;
    push_char(out, c);
}

/// The decimal numeral of `n`.
pub fn decimal_string(n: u64) -> (out: String)
    ensures
        out@ == decimal(n as nat),
{
    let mut out = String::new();
    push_decimal(&mut out, n);
    out
}

/// A prefix of a sequence keeps, among its printable characters, a prefix of
/// the printable characters of the whole.
pub proof fn lemma_printable_prefix(s: Seq<char>, i: int)
    requires
        0 <= i <= s.len(),
    ensures
        printable_only(s.take(i)).is_prefix_of(printable_only(s)),
        i < s.len() ==> printable_only(s.take(i + 1)) == if is_printable(s[i]) {
            printable_only(s.take(i)).push(s[i])
        } else {
            printable_only(s.take(i))
        },
{
    let pred = |c: char| is_printable(c);
    assert(s == s.take(i) + s.skip(i));
    Seq::filter_distributes_over_add(s.take(i), s.skip(i), pred);
    if i < s.len() {
        assert(s.take(i + 1) == s.take(i).push(s[i]));
        Seq::lemma_filter_push(s.take(i), s[i], pred);
    }
}

/// Makes the message identifier from `s`: drops what is not printable
/// US-ASCII, then keeps at most the first 32 characters.
pub fn normalize_message_id(s: &str) -> (out: String)
    ensures
        out@ == message_id_text(s@),
        out@.len() <= MESSAGE_ID_MAX,
        forall|k: int| 0 <= k < out@.len() ==> is_printable(#[trigger] out@[k]),
{
    let mut out = String::new();
    let mut kept: usize = 0;
    let mut rest = s.chars();
    let ghost mut i: int = 0;
    let mut done = false;
    while !done && kept < MESSAGE_ID_MAX
        invariant
            rest.obeys_prophetic_iter_laws(),
            0 <= i <= s@.len(),
            rest.remaining() == s@.skip(i),
            done ==> i == s@.len(),
            kept <= MESSAGE_ID_MAX,
            kept == out@.len(),
            out@ == printable_only(s@.take(i)),
        decreases s@.len() - i, (if done { 0int } else { 1int }),
    {
        proof {
            lemma_printable_prefix(s@, i);
        }
        match rest.next() {
            Some(c) => {
                if is_us_print_ascii(&c) {
                    push_char(&mut out, c);
                    kept = kept + 1;
                }
                proof {
                    assert(s@.skip(i).drop_first() == s@.skip(i + 1));
                    i = i + 1;
                }
            },
            None => {
                done = true;
            },
        }
    }
    proof {
        lemma_printable_prefix(s@, i);
        if i == s@.len() {
            assert(s@.take(i) == s@);
        }
        assert(out@ == message_id_text(s@));
        let pred = |c: char| is_printable(c);
        assert forall|k: int| 0 <= k < out@.len() implies is_printable(#[trigger] out@[k]) by {
            s@.take(i).lemma_filter_pred(pred, k);
        }
    }
    out
}

/// A character that is not printable leaves no trace in the message
/// identifier, wherever it stands: it uses up none of the 32 places.
pub proof fn lemma_message_id_skips_unprintable(before: Seq<char>, c: char, after: Seq<char>)
    requires
        !is_printable(c),
    ensures
        message_id_text(before + seq![c] + after) == message_id_text(before + after),
{
    let pred = |c: char| is_printable(c);
    Seq::filter_distributes_over_add(before + seq![c], after, pred);
    Seq::filter_distributes_over_add(before, seq![c], pred);
    Seq::filter_distributes_over_add(before, after, pred);
    assert(seq![c] == Seq::<char>::empty().push(c));
    Seq::lemma_filter_push(Seq::<char>::empty(), c, pred);
    assert(Seq::<char>::empty().filter(pred) == Seq::<char>::empty()) by {
        reveal_with_fuel(Seq::filter, 1);
    }
    assert(printable_only(before) + Seq::<char>::empty() == printable_only(before));
}

/// Text that is printable throughout passes the filter unchanged.
pub proof fn lemma_printable_text_kept(s: Seq<char>)
    requires
        forall|i: int| 0 <= i < s.len() ==> is_printable(#[trigger] s[i]),
    ensures
        printable_only(s) == s,
    decreases s.len(),
{
    let pred = |c: char| is_printable(c);
    if s.len() == 0 {
        assert(s.filter(pred) == Seq::<char>::empty()) by {
            reveal_with_fuel(Seq::filter, 1);
        }
    } else {
        lemma_printable_text_kept(s.drop_last());
        assert(s == s.drop_last().push(s.last()));
        Seq::lemma_filter_push(s.drop_last(), s.last(), pred);
    }
}

/// Making a message identifier twice is the same as making it once.
pub proof fn lemma_message_id_idempotent(s: Seq<char>)
    ensures
        message_id_text(message_id_text(s)) == message_id_text(s),
{
    let pred = |c: char| is_printable(c);
    let id = message_id_text(s);
    assert forall|i: int| 0 <= i < id.len() implies is_printable(#[trigger] id[i]) by {
        s.lemma_filter_pred(pred, i);
    }
    lemma_printable_text_kept(id);
}

/// Whether `n` has at most `width` decimal digits.
pub open spec fn has_digits(n: nat, width: nat) -> bool
    decreases width,
{
    width > 0 && (n < 10 || has_digits(n / 10, (width - 1) as nat))
}

/// A decimal numeral holds digits only, and no more of them than the
/// number has.
pub proof fn lemma_decimal_digits(n: nat, width: nat)
    requires
        has_digits(n, width),
    ensures
        1 <= decimal(n).len() <= width,
        forall|i: int|
            0 <= i < decimal(n).len() ==> '0' <= #[trigger] decimal(n)[i] <= '9' && is_printable(
                decimal(n)[i],
            ),
    decreases width,
{
    if n >= 10 {
        lemma_decimal_digits(n / 10, (width - 1) as nat);
    }
}

/// The decimal numeral of a 32-bit number is its own message identifier:
/// ten digits at most, all of them printable.
pub proof fn lemma_decimal_is_message_id(n: u32)
    ensures
        message_id_text(decimal(n as nat)) == decimal(n as nat),
{
    assert(has_digits(n as nat, 10)) by {
        reveal_with_fuel(has_digits, 11);
    }
    lemma_decimal_digits(n as nat, 10);
    lemma_printable_text_kept(decimal(n as nat));
}

} // verus!
