use vstd::prelude::*;

verus! {

/// Lower-case digit for a value below 36.
pub open spec fn digit_of(d: nat) -> char {
    if d < 10 {
        (48 + d) as char
    } else {
        (97 + (d - 10)) as char
    }
}

/// Unsigned text of `n` in base `radix`, most significant digit first,
/// without leading zeros ("0" for zero).
pub open spec fn radix_text(n: nat, radix: nat) -> Seq<char>
    decreases n,
    via radix_text_decreases
{
    if radix < 2 || n < radix {
        seq![digit_of(n)]
    } else {
        radix_text(n / radix, radix).push(digit_of(n % radix))
    }
}


#[via_fn]
proof fn radix_text_decreases(n: nat, radix: nat) {
    if !(radix < 2 || n < radix) {
        assert(n / radix < n) by (nonlinear_arith)
            requires
                radix >= 2,
                n >= radix,
        ;
    }
}

/// Relies on `String::push`: appends one character to the end.
#[verifier::external_body]
fn push_char(s: &mut String, c: char)
    ensures
        final(s)@ == old(s)@.push(c),
{
    s.push(c)
}

fn digit_char(d: u64) -> (c: char)
    requires
        d < 36,
    ensures
        c == digit_of(d as nat),
{
    if d < 10 {
        (48u8 + d as u8) as char
    } else {
        (97u8 + (d - 10) as u8) as char
    }
}

/// Appends the text of `n` in base `radix` to `s`.
pub fn push_radix_text(s: &mut String, n: u64, radix: u64)
    requires
        2 <= radix <= 36,
    ensures
        final(s)@ == old(s)@ + radix_text(n as nat, radix as nat),
{
    let mut m: u64 = n;
    // Low-order digits, least significant first.
    let mut low: Vec<char> = Vec::new();
    let ghost mut tail: Seq<char> = Seq::empty();
    while m >= radix
        invariant
            2 <= radix <= 36,
            radix_text(n as nat, radix as nat) == radix_text(m as nat, radix as nat) + tail,
            low@.len() == tail.len(),
            forall|i: int| 0 <= i < low@.len() ==> low@[i] == tail[tail.len() - 1 - i],
        decreases m,
    {
        let d = digit_char(m % radix);
        proof {
            let t2 = seq![d] + tail;
            let hi = radix_text((m / radix) as nat, radix as nat);
            assert(radix_text(m as nat, radix as nat) == hi.push(d));
            assert(hi.push(d) + tail =~= hi + t2);
            tail = t2;
        }
        low.push(d);
        m = m / radix;
    }
    let ghost start = old(s)@;
    push_char(s, digit_char(m));
    let mut k: usize = low.len();
    while k > 0
        invariant
            k <= low@.len(),
            low@.len() == tail.len(),
            forall|i: int| 0 <= i < low@.len() ==> low@[i] == tail[tail.len() - 1 - i],
            s@ == start + radix_text(m as nat, radix as nat) + tail.subrange(
                0,
                (low@.len() - k) as int,
            ),
        decreases k,
    {
        let c = low[k - 1];
        proof {
            let j = (low@.len() - k) as int;
            assert(c == tail[j]);
            assert(tail.subrange(0, j + 1) =~= tail.subrange(0, j).push(c));
        }
        push_char(s, c);
        k = k - 1;
    }
    assert(tail.subrange(0, tail.len() as int) =~= tail);
    assert(s@ =~= start + radix_text(n as nat, radix as nat));
}

/// Text of `n` in base `radix`.
pub fn to_radix_text(n: u64, radix: u64) -> (s: String)
    requires
        2 <= radix <= 36,
    ensures
        s@ == radix_text(n as nat, radix as nat),
{
    let mut s = String::new();
    push_radix_text(&mut s, n, radix);
    assert(s@ =~= radix_text(n as nat, radix as nat));
    s
}

/// Identifier of the creature numbered `n`: "c" followed by `n` in decimal.
pub fn creature_id(n: u64) -> (s: String)
    ensures
        s@ == seq!['c'] + radix_text(n as nat, 10),
{
    let mut s = String::new();
    push_char(&mut s, 'c');
    push_radix_text(&mut s, n, 10);
    s
}

} // verus!
