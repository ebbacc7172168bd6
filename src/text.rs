use vstd::prelude::*;

verus! {

/// Relies on `String::push`: it appends the given character at the end.
pub assume_specification[ String::push ](s: &mut String, ch: char)
    ensures
        final(s)@ == old(s)@.push(ch),
;

/// The digit character of `d < 16`, past nine a lower-case letter.
pub open spec fn hex_char(d: int) -> char {
    if d < 10 {
        (('0' as u8) + d) as char
    } else {
        (('a' as u8) + (d - 10)) as char
    }
}

/// `v` in base `base`, most significant digit first, at least `width` digits.
pub open spec fn digits(v: nat, base: nat, width: nat) -> Seq<int>
    decreases width, v via digits_decreases
{
    if base < 2 || (v < base && width <= 1) {
        seq![v as int]
    } else {
        let w: nat = if width > 0 { (width - 1) as nat } else { 0 };
        digits(v / base, base, w).push((v % base) as int)
    }
}

#[via_fn]
proof fn digits_decreases(v: nat, base: nat, width: nat) {
    if !(base < 2 || (v < base && width <= 1)) && width <= 1 {
        assert(v / base < v) by (nonlinear_arith)
            requires
                v >= base,
                base >= 2,
        ;
    }
}

/// `v` in base `base`, digits past nine as lower-case letters, zero-padded to `width` digits.
pub open spec fn num_text(v: nat, base: nat, width: nat) -> Seq<char> {
    digits(v, base, width).map_values(|d: int| hex_char(d))
}

/// Appends `v` in base 10 or 16, zero-padded to `width` digits.
pub fn push_digits(s: &mut String, v: u64, base: u64, width: u64)
    requires
        base == 10 || base == 16,
    ensures
        final(s)@ == old(s)@ + num_text(v as nat, base as nat, width as nat),
    decreases width, v,
{
    if v < base && width <= 1 {
        let c = if v < 10 {
            (('0' as u8) + v as u8) as char
        } else {
            (('a' as u8) + (v - 10) as u8) as char
        };
        s.push(c);
        assert(digits(v as nat, base as nat, width as nat) =~= seq![v as int]);
        assert(digits(v as nat, base as nat, width as nat).map_values(|d: int| hex_char(d))
            =~= seq![c]);
    } else {
        let w: u64 = if width > 0 { width - 1 } else { 0 };
        assert(width > 1 || v / base < v) by (nonlinear_arith)
            requires
                width > 1 || v >= base,
                base >= 2,
        ;
        push_digits(s, v / base, base, w);
        let d = v % base;
        let c = if d < 10 {
            (('0' as u8) + d as u8) as char
        } else {
            (('a' as u8) + (d - 10) as u8) as char
        };
        s.push(c);
        let ghost ds = digits((v / base) as nat, base as nat, w as nat);
        assert(digits(v as nat, base as nat, width as nat) == ds.push(d as int));
        assert(digits(v as nat, base as nat, width as nat).map_values(|d: int| hex_char(d))
            =~= ds.map_values(|d: int| hex_char(d)).push(c));
    }
}

} // verus!
