use vstd::prelude::*;
use vstd::string::*;

verus! {

/// The marker that stands in place of the text cut off by `truncate`.
pub open spec fn ellipsis() -> char {
    '…'
}

/// `s` cut to at most `len` characters: unchanged when it fits, otherwise its
/// first `len - 1` characters followed by the ellipsis marker.
pub open spec fn truncated(s: Seq<char>, len: nat) -> Seq<char> {
    if s.len() <= len {
        s
    } else if len == 0 {
        Seq::empty()
    } else {
        s.subrange(0, len - 1).push(ellipsis())
    }
}

pub open spec fn digit_char(d: nat) -> char {
    ((d + 48) as u8) as char
}

/// Decimal notation of `n`, without leading zeros.
pub open spec fn decimal_of(n: nat) -> Seq<char>
    decreases n,
{
    if n < 10 {
        seq![digit_char(n)]
    } else {
        decimal_of(n / 10).push(digit_char(n % 10))
    }
}

/// Relies on String::push: appends one character.
#[verifier::external_body]
pub(crate) fn push_char(s: &mut String, c: char)
    ensures
        final(s)@ == old(s)@.push(c),
{
    s.push(c)
}

/// Copy of a string slice.
pub(crate) fn owned(s: &str) -> (r: String)
    ensures
        r@ == s@,
{
    String::from_str(s)
}

/// Concatenation of two string slices.
pub(crate) fn join2(a: &str, b: &str) -> (r: String)
    ensures
        r@ == a@ + b@,
{
    let mut r = String::from_str(a);
    r.append(b);
    r
}

/// Cuts `s` to at most `len` characters, never inside a character. A string
/// that does not fit keeps its first `len - 1` characters and gains the
/// ellipsis marker; with `len == 0` nothing is left.
pub fn truncate(s: &str, len: usize) -> (r: String)
    ensures
        r@ == truncated(s@, len as nat),
{
    let n = s.unicode_len();
    if n <= len {
        owned(s)
    } else if len == 0 {
        String::new()
    } else {
        let mut r = owned(s.substring_char(0, len - 1));
        push_char(&mut r, '…');
        r
    }
}

/// A truncated string never exceeds the limit; when it was cut it ends with
/// the ellipsis marker and keeps, character for character, the start of the
/// input.
pub proof fn lemma_truncate_bounded(s: Seq<char>, len: nat)
    requires
        len >= 1,
    ensures
        truncated(s, len).len() <= len,
        s.len() <= len ==> truncated(s, len) == s,
        s.len() > len ==> truncated(s, len).len() == len
            && truncated(s, len).last() == ellipsis()
            && truncated(s, len).subrange(0, len - 1) == s.subrange(0, len - 1),
{
    if s.len() > len {
        assert(truncated(s, len).subrange(0, len - 1) =~= s.subrange(0, len - 1));
    }
}

fn push_decimal(out: &mut String, n: u64)
    ensures
        final(out)@ == old(out)@ + decimal_of(n as nat),
    decreases n,
{
    if n >= 10 {
        push_decimal(out, n / 10);
    }
    let d: u8 = (n % 10) as u8;
    push_char(out, (d + 48) as char);
    proof {
        assert(old(out)@ + decimal_of(n as nat) =~= final(out)@) by {
            if n >= 10 {
                assert(decimal_of(n as nat) == decimal_of((n / 10) as nat).push(
                    digit_char((n % 10) as nat),
                ));
            }
        }
    }
}

/// Decimal notation of `n`.
pub fn decimal(n: u64) -> (r: String)
    ensures
        r@ == decimal_of(n as nat),
{
    let mut r = String::new();
    push_decimal(&mut r, n);
    proof {
        assert(r@ =~= decimal_of(n as nat));
    }
    r
}

} // verus!
