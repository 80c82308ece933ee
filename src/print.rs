//! Integer rendering in a radix, padding to a width, and positional
//! substitution into a template.
use vstd::arithmetic::div_mod::{lemma_div_decreases, lemma_small_mod};
use vstd::prelude::*;

verus! {

/// The digit for `d` in radices up to sixteen: `0`-`9`, then `a`-`f`.
pub open spec fn digit_char(d: nat) -> char {
    if d < 10 {
        (d + 48) as char
    } else {
        (d + 87) as char
    }
}

/// The digits of `n` in radix `base`, most significant first, without
/// leading zeros (zero itself is the single digit `0`).
pub open spec fn radix_text(n: nat, base: nat) -> Seq<char>
    decreases n via radix_text_decreases
{
    if base < 2 || n < base {
        seq![digit_char(n)]
    } else {
        radix_text(n / base, base).push(digit_char(n % base))
    }
}

#[via_fn]
proof fn radix_text_decreases(n: nat, base: nat) {
    if !(base < 2 || n < base) {
        lemma_div_decreases(n as int, base as int);
    }
}

/// The decimal text of a signed integer, with a leading `-` when negative.
pub open spec fn int_text(i: int) -> Seq<char> {
    if i < 0 {
        seq!['-'] + radix_text((-i) as nat, 10)
    } else {
        radix_text(i as nat, 10)
    }
}

/// Relies on String::push: appends one character.
#[verifier::external_body]
pub(crate) fn push_char(s: &mut String, c: char)
    ensures
        final(s)@ == old(s)@.push(c),
{
    s.push(c)
}

fn digit(d: u64) -> (c: char)
    requires
        d < 16,
    ensures
        c == digit_char(d as nat),
{
    if d < 10 {
        ((d as u8) + 48) as char
    } else {
        ((d as u8) + 87) as char
    }
}

/// Appends the digits of `n` in radix `base` to `out`.
pub fn write_radix(out: &mut String, n: u64, base: u64)
    requires
        2 <= base <= 16,
    ensures
        final(out)@ == old(out)@ + radix_text(n as nat, base as nat),
    decreases n,
{
    if n >= base {
        proof {
            lemma_div_decreases(n as int, base as int);
        }
        write_radix(out, n / base, base);
    }
    push_char(out, digit(n % base));
    proof {
        if n < base {
            lemma_small_mod(n as nat, base as nat);
        }
        assert(final(out)@ =~= old(out)@ + radix_text(n as nat, base as nat));
    }
}

/// `n` written in radix `base`: binary for two, decimal for ten, lower-case
/// hexadecimal for sixteen.
pub fn radix(n: u64, base: u64) -> (r: String)
    requires
        2 <= base <= 16,
    ensures
        r@ == radix_text(n as nat, base as nat),
{
    let mut out = String::new();
    write_radix(&mut out, n, base);
    out
}

/// The decimal text of a signed integer.
pub fn int_to_text(i: i64) -> (r: String)
    ensures
        r@ == int_text(i as int),
{
    let mut out = String::new();
    let magnitude: u64 = if i < 0 {
        push_char(&mut out, '-');
        (0 - (i as i128)) as u64
    } else {
        i as u64
    };
    write_radix(&mut out, magnitude, 10);
    out
}

/// `k` copies of the character `c`.
pub open spec fn fill_run(c: char, k: nat) -> Seq<char> {
    Seq::new(k, |_i: int| c)
}

/// How many fill characters bring a text of `len` characters to `width`.
pub open spec fn fill_count(len: nat, width: nat) -> nat {
    if len < width {
        (width - len) as nat
    } else {
        0
    }
}

fn push_fill(out: &mut String, c: char, k: usize)
    ensures
        final(out)@ == old(out)@ + fill_run(c, k as nat),
{
    let mut i: usize = 0;
    while i < k
        invariant
            i <= k,
            out@ == old(out)@ + fill_run(c, i as nat),
        decreases k - i,
    {
        push_char(out, c);
        i = i + 1;
        assert(out@ =~= old(out)@ + fill_run(c, i as nat));
    }
}

/// Right-justifies `s` in a field of `width` characters, filling on the left.
pub fn pad_start(s: &str, width: usize, fill: char) -> (r: String)
    ensures
        r@ == fill_run(fill, fill_count(s@.len(), width as nat)) + s@,
{
    let len = s.unicode_len();
    let mut out = String::new();
    let k: usize = if len < width { width - len } else { 0 };
    push_fill(&mut out, fill, k);
    out.append(s);
    proof {
        assert(out@ =~= fill_run(fill, fill_count(s@.len(), width as nat)) + s@);
    }
    out
}

/// Left-justifies `s` in a field of `width` characters, filling on the right.
pub fn pad_end(s: &str, width: usize, fill: char) -> (r: String)
    ensures
        r@ == s@ + fill_run(fill, fill_count(s@.len(), width as nat)),
{
    let len = s.unicode_len();
    let mut out = String::from_str(s);
    let k: usize = if len < width { width - len } else { 0 };
    push_fill(&mut out, fill, k);
    out
}

/// One part of a template: literal text, or the argument at a position.
pub enum Piece {
    Text(String),
    Arg(usize),
}

/// Whether every argument that the template refers to exists.
pub open spec fn args_in_range(pieces: Seq<Piece>, n_args: nat) -> bool {
    forall|j: int|
        0 <= j < pieces.len() ==> match #[trigger] pieces[j] {
            Piece::Text(_) => true,
            Piece::Arg(k) => k < n_args,
        }
}

/// The text that one piece stands for.
pub open spec fn piece_text(p: Piece, args: Seq<String>) -> Seq<char> {
    match p {
        Piece::Text(t) => t@,
        Piece::Arg(k) => args[k as int]@,
    }
}

/// The template's pieces in order, each argument substituted wherever its
/// position occurs, as often as it occurs.
pub open spec fn rendered(pieces: Seq<Piece>, args: Seq<String>) -> Seq<char>
    decreases pieces.len(),
{
    if pieces.len() == 0 {
        seq![]
    } else {
        rendered(pieces.drop_last(), args) + piece_text(pieces.last(), args)
    }
}

/// Substitutes `args` into the template; `None` when a piece refers to a
/// position past the last argument.
pub fn substitute(pieces: &Vec<Piece>, args: &Vec<String>) -> (r: Option<String>)
    ensures
        r is Some <==> args_in_range(pieces@, args@.len()),
        r matches Some(text) ==> text@ == rendered(pieces@, args@),
{
    let mut out = String::new();
    let mut i: usize = 0;
    while i < pieces.len()
        invariant
            i <= pieces@.len(),
            args_in_range(pieces@.subrange(0, i as int), args@.len()),
            out@ == rendered(pieces@.subrange(0, i as int), args@),
        decreases pieces@.len() - i,
    {
        assert(pieces@.subrange(0, i + 1).drop_last() =~= pieces@.subrange(0, i as int));
        match &pieces[i] {
            Piece::Text(t) => {
                out.append(t.as_str());
            },
            Piece::Arg(k) => {
                if *k < args.len() {
                    out.append(args[*k].as_str());
                } else {
                    assert(!args_in_range(pieces@, args@.len()) ) by {
                        assert(pieces@[i as int] == Piece::Arg(*k));
                    }
                    return None;
                }
            },
        }
        proof {
            assert(args_in_range(pieces@.subrange(0, i + 1), args@.len())) by {
                assert forall|j: int| 0 <= j < i + 1 implies match #[trigger] pieces@.subrange(0, i + 1)[j] {
                    Piece::Text(_) => true,
                    Piece::Arg(k) => k < args@.len(),
                } by {
                    if j < i {
                        assert(pieces@.subrange(0, i + 1)[j] == pieces@.subrange(0, i as int)[j]);
                    }
                }
            }
        }
        i = i + 1;
    }
    assert(pieces@.subrange(0, i as int) =~= pieces@);
    Some(out)
}

} // verus!
