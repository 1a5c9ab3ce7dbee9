//! Building blocks of assembly text: decimal numerals and the line shapes
//! that every target shares.

use vstd::prelude::*;
use vstd::string::*;

verus! {

/// The character that stands for the decimal digit `d`.
pub open spec fn digit(d: nat) -> char {
    if d == 0 {
        '0'
    } else if d == 1 {
        '1'
    } else if d == 2 {
        '2'
    } else if d == 3 {
        '3'
    } else if d == 4 {
        '4'
    } else if d == 5 {
        '5'
    } else if d == 6 {
        '6'
    } else if d == 7 {
        '7'
    } else if d == 8 {
        '8'
    } else {
        '9'
    }
}

/// The decimal numeral of `n`, most significant digit first, without
/// leading zeros.
pub open spec fn decimal(n: nat) -> Seq<char>
    decreases n,
{
    if n < 10 {
        seq![digit(n)]
    } else {
        decimal(n / 10).push(digit(n % 10))
    }
}

/// Whether `c` is one of the ten decimal digits.
pub open spec fn is_digit(c: char) -> bool {
    exists|d: nat| d < 10 && c == digit(d)
}

/// A numeral has at least one character, and all of them are digits.
pub proof fn lemma_decimal_digits(n: nat)
    ensures
        decimal(n).len() >= 1,
        forall|i: int| 0 <= i < decimal(n).len() ==> is_digit(#[trigger] decimal(n)[i]),
    decreases n,
{
    if n < 10 {
        assert(is_digit(digit(n)));
    } else {
        lemma_decimal_digits(n / 10);
        assert(is_digit(digit(n % 10)));
    }
}

/// The digit that the character `c` stands for.
pub open spec fn digit_value(c: char) -> nat {
    if c == '1' {
        1
    } else if c == '2' {
        2
    } else if c == '3' {
        3
    } else if c == '4' {
        4
    } else if c == '5' {
        5
    } else if c == '6' {
        6
    } else if c == '7' {
        7
    } else if c == '8' {
        8
    } else if c == '9' {
        9
    } else {
        0
    }
}

/// The number that the numeral `s` is read as.
pub open spec fn numeral_value(s: Seq<char>) -> nat
    decreases s.len(),
{
    if s.len() == 0 {
        0
    } else {
        numeral_value(s.drop_last()) * 10 + digit_value(s.last())
    }
}

/// The numeral of `n` reads as `n`, and begins with a zero only where `n`
/// is zero.
pub proof fn lemma_decimal_value(n: nat)
    ensures
        numeral_value(decimal(n)) == n,
        decimal(n)[0] == '0' <==> n == 0,
    decreases n,
{
    if n < 10 {
        assert(decimal(n).drop_last() =~= Seq::<char>::empty());
        assert(numeral_value(decimal(n).drop_last()) == 0);
    } else {
        lemma_decimal_value(n / 10);
        lemma_decimal_digits(n / 10);
        let head = decimal(n / 10);
        assert(head.push(digit(n % 10)).drop_last() =~= head);
        assert(head.push(digit(n % 10))[0] == head[0]);
    }
}

/// Different numbers have different numerals.
pub proof fn lemma_decimal_injective(a: nat, b: nat)
    requires
        decimal(a) == decimal(b),
    ensures
        a == b,
{
    lemma_decimal_value(a);
    lemma_decimal_value(b);
}

/// Texts with the same beginning differ where what follows differs.
pub proof fn lemma_same_prefix(p: Seq<char>, x: Seq<char>, y: Seq<char>)
    requires
        p + x == p + y,
    ensures
        x == y,
{
    assert((p + x).subrange(p.len() as int, (p + x).len() as int) =~= x);
    assert((p + y).subrange(p.len() as int, (p + y).len() as int) =~= y);
}

/// The one-character text of a decimal digit.
fn digit_str(d: u128) -> (s: &'static str)
    requires
        d < 10,
    ensures
        s@ == seq![digit(d as nat)],
{
    proof {
        reveal_strlit("0");
        reveal_strlit("1");
        reveal_strlit("2");
        reveal_strlit("3");
        reveal_strlit("4");
        reveal_strlit("5");
        reveal_strlit("6");
        reveal_strlit("7");
        reveal_strlit("8");
        reveal_strlit("9");
    }
    let s = if d == 0 {
        "0"
    } else if d == 1 {
        "1"
    } else if d == 2 {
        "2"
    } else if d == 3 {
        "3"
    } else if d == 4 {
        "4"
    } else if d == 5 {
        "5"
    } else if d == 6 {
        "6"
    } else if d == 7 {
        "7"
    } else if d == 8 {
        "8"
    } else {
        "9"
    };
    assert(s@ =~= seq![digit(d as nat)]);
    s
}

/// Appends the decimal numeral of `n` to `out`.
pub fn push_decimal(out: &mut String, n: u128)
    ensures
        final(out)@ == old(out)@ + decimal(n as nat),
    decreases n,
{
    if n >= 10 {
        push_decimal(out, n / 10);
    }
    out.append(digit_str(n % 10));
}

/// An instruction line without operands: a tab and the mnemonic.
pub open spec fn ins0(m: Seq<char>) -> Seq<char> {
    "\t"@ + m
}

/// An instruction line with one operand.
pub open spec fn ins1(m: Seq<char>, a: Seq<char>) -> Seq<char> {
    "\t"@ + m + " "@ + a
}

/// An instruction line with two operands.
pub open spec fn ins2(m: Seq<char>, a: Seq<char>, b: Seq<char>) -> Seq<char> {
    "\t"@ + m + " "@ + a + ", "@ + b
}

/// An instruction line with three operands.
pub open spec fn ins3(m: Seq<char>, a: Seq<char>, b: Seq<char>, c: Seq<char>) -> Seq<char> {
    "\t"@ + m + " "@ + a + ", "@ + b + ", "@ + c
}

/// An immediate operand: `#` and the value.
pub open spec fn imm(v: Seq<char>) -> Seq<char> {
    "#"@ + v
}

/// The name of the local label with id `id`.
pub open spec fn local_label(id: nat) -> Seq<char> {
    "L"@ + decimal(id)
}

/// The name of the epilogue label with number `n`.
pub open spec fn epilogue_label(n: nat) -> Seq<char> {
    "Lend"@ + decimal(n)
}

/// The line that defines the label `name`: unindented, with a colon.
pub open spec fn label_def(name: Seq<char>) -> Seq<char> {
    name + ":"@
}

/// The text of a sequence of lines: each line followed by a newline.
pub open spec fn text(lines: Seq<Seq<char>>) -> Seq<char>
    decreases lines.len(),
{
    if lines.len() == 0 {
        Seq::empty()
    } else {
        text(lines.drop_last()) + lines.last() + "\n"@
    }
}

/// Appends `line` and a newline to `out`, and records the line in `done`.
pub(crate) fn emit(
    out: &mut String,
    line: &str,
    Ghost(base): Ghost<Seq<char>>,
    done: &mut Ghost<Seq<Seq<char>>>,
)
    requires
        old(out)@ == base + text(old(done)@),
    ensures
        final(out)@ == base + text(final(done)@),
        final(done)@ == old(done)@.push(line@),
{
    out.append(line);
    out.append("\n");
    proof {
        let before = done@;
        *done = Ghost(before.push(line@));
        assert(done@.drop_last() =~= before);
        assert(out@ =~= base + text(done@));
    }
}

/// Emits the instruction line [`ins0`].
pub(crate) fn emit0(
    out: &mut String,
    m: &str,
    Ghost(base): Ghost<Seq<char>>,
    done: &mut Ghost<Seq<Seq<char>>>,
)
    requires
        old(out)@ == base + text(old(done)@),
    ensures
        final(out)@ == base + text(final(done)@),
        final(done)@ == old(done)@.push(ins0(m@)),
{
    let mut line = String::new();
    line.append("\t");
    line.append(m);
    assert(line@ =~= ins0(m@));
    emit(out, line.as_str(), Ghost(base), done);
}

/// Emits the instruction line [`ins1`].
pub(crate) fn emit1(
    out: &mut String,
    m: &str,
    a: &str,
    Ghost(base): Ghost<Seq<char>>,
    done: &mut Ghost<Seq<Seq<char>>>,
)
    requires
        old(out)@ == base + text(old(done)@),
    ensures
        final(out)@ == base + text(final(done)@),
        final(done)@ == old(done)@.push(ins1(m@, a@)),
{
    let mut line = String::new();
    line.append("\t");
    line.append(m);
    line.append(" ");
    line.append(a);
    assert(line@ =~= ins1(m@, a@));
    emit(out, line.as_str(), Ghost(base), done);
}

/// Emits the instruction line [`ins2`].
pub(crate) fn emit2(
    out: &mut String,
    m: &str,
    a: &str,
    b: &str,
    Ghost(base): Ghost<Seq<char>>,
    done: &mut Ghost<Seq<Seq<char>>>,
)
    requires
        old(out)@ == base + text(old(done)@),
    ensures
        final(out)@ == base + text(final(done)@),
        final(done)@ == old(done)@.push(ins2(m@, a@, b@)),
{
    let mut line = String::new();
    line.append("\t");
    line.append(m);
    line.append(" ");
    line.append(a);
    line.append(", ");
    line.append(b);
    assert(line@ =~= ins2(m@, a@, b@));
    emit(out, line.as_str(), Ghost(base), done);
}

/// Emits the instruction line [`ins3`].
pub(crate) fn emit3(
    out: &mut String,
    m: &str,
    a: &str,
    b: &str,
    c: &str,
    Ghost(base): Ghost<Seq<char>>,
    done: &mut Ghost<Seq<Seq<char>>>,
)
    requires
        old(out)@ == base + text(old(done)@),
    ensures
        final(out)@ == base + text(final(done)@),
        final(done)@ == old(done)@.push(ins3(m@, a@, b@, c@)),
{
    let mut line = String::new();
    line.append("\t");
    line.append(m);
    line.append(" ");
    line.append(a);
    line.append(", ");
    line.append(b);
    line.append(", ");
    line.append(c);
    assert(line@ =~= ins3(m@, a@, b@, c@));
    emit(out, line.as_str(), Ghost(base), done);
}

/// Emits the line [`label_def`] for `name`.
pub(crate) fn emit_label(
    out: &mut String,
    name: &str,
    Ghost(base): Ghost<Seq<char>>,
    done: &mut Ghost<Seq<Seq<char>>>,
)
    requires
        old(out)@ == base + text(old(done)@),
    ensures
        final(out)@ == base + text(final(done)@),
        final(done)@ == old(done)@.push(label_def(name@)),
{
    let mut line = String::new();
    line.append(name);
    line.append(":");
    assert(line@ =~= label_def(name@));
    emit(out, line.as_str(), Ghost(base), done);
}

/// The immediate operand [`imm`] of the numeral of `n`.
pub(crate) fn imm_decimal(n: u128) -> (s: String)
    ensures
        s@ == imm(decimal(n as nat)),
{
    let mut s = String::new();
    s.append("#");
    push_decimal(&mut s, n);
    assert(s@ =~= imm(decimal(n as nat)));
    s
}

/// The label name [`local_label`].
pub fn local_label_name(id: usize) -> (s: String)
    ensures
        s@ == local_label(id as nat),
{
    let mut s = String::new();
    s.append("L");
    push_decimal(&mut s, id as u128);
    assert(s@ =~= local_label(id as nat));
    s
}

/// The label name [`epilogue_label`].
pub fn epilogue_label_name(n: usize) -> (s: String)
    ensures
        s@ == epilogue_label(n as nat),
{
    let mut s = String::new();
    s.append("Lend");
    push_decimal(&mut s, n as u128);
    assert(s@ =~= epilogue_label(n as nat));
    s
}

} // verus!
