//! Building text as bytes: decimal numbers, string pieces, a bounded writer.

use vstd::prelude::*;

verus! {

/// The bytes of a string.
pub open spec fn utf8(s: Seq<char>) -> Seq<u8> {
    vstd::utf8::encode_utf8(s)
}

/// The decimal digits of `v`, most significant first, without leading zeros.
pub open spec fn decimal(v: nat) -> Seq<u8>
    decreases v,
{
    if v < 10 {
        seq![(48 + v) as u8]
    } else {
        decimal(v / 10).push((48 + v % 10) as u8)
    }
}

/// The decimal digits of `v`, with a leading minus sign where it is negative.
pub open spec fn signed_decimal(v: int) -> Seq<u8> {
    if v < 0 {
        seq!['-' as u8] + decimal((-v) as nat)
    } else {
        decimal(v as nat)
    }
}

/// `10` to the power `k`.
pub open spec fn ten_to(k: nat) -> nat
    decreases k,
{
    if k == 0 {
        1
    } else {
        10 * ten_to((k - 1) as nat)
    }
}

/// A number below `10^k` has at most `k` digits, and every number has at least one.
pub proof fn lemma_decimal_len(v: nat, k: nat)
    requires
        k >= 1,
        v < ten_to(k),
    ensures
        1 <= decimal(v).len() <= k,
    decreases k,
{
    if v >= 10 {
        assert(k != 1) by {
            reveal_with_fuel(ten_to, 2);
        }
        lemma_decimal_len(v / 10, (k - 1) as nat);
    }
}

/// A 32-bit number has one to ten digits.
pub proof fn lemma_decimal_u32(v: u32)
    ensures
        1 <= decimal(v as nat).len() <= 10,
{
    assert(ten_to(10) == 10_000_000_000) by {
        reveal_with_fuel(ten_to, 11);
    }
    lemma_decimal_len(v as nat, 10);
}

/// The number that a string of decimal digits denotes.
pub open spec fn decimal_value(s: Seq<u8>) -> nat
    decreases s.len(),
{
    if s.len() == 0 {
        0
    } else {
        10 * decimal_value(s.drop_last()) + (s.last() - 48) as nat
    }
}

/// Reading the digits of a number back gives the number.
pub proof fn law_decimal_reads_back(v: nat)
    ensures
        decimal_value(decimal(v)) == v,
        forall|i: int| 0 <= i < decimal(v).len() ==> 48 <= #[trigger] decimal(v)[i] <= 57,
    decreases v,
{
    if v >= 10 {
        law_decimal_reads_back(v / 10);
        assert(decimal(v).drop_last() =~= decimal(v / 10));
    } else {
        assert(decimal(v).drop_last() =~= Seq::<u8>::empty());
        assert(decimal_value(Seq::<u8>::empty()) == 0);
    }
}

/// The digits of `v` in reverse order.
fn digits_reversed(v: u32) -> (tmp: Vec<u8>)
    ensures
        tmp@.reverse() == decimal(v as nat),
{
    let mut tmp: Vec<u8> = Vec::new();
    let mut rest: u32 = v;
    while rest >= 10
        invariant
            decimal(v as nat) == decimal(rest as nat) + tmp@.reverse(),
        decreases rest,
    {
        let ghost before = tmp@;
        tmp.push(48 + (rest % 10) as u8);
        assert(tmp@.reverse() =~= seq![(48 + rest % 10) as u8] + before.reverse());
        assert(decimal(rest as nat) =~= decimal((rest / 10) as nat) + seq![(48 + rest % 10) as u8]);
        rest = rest / 10;
        assert(decimal(v as nat) =~= decimal(rest as nat) + tmp@.reverse());
    }
    let ghost before = tmp@;
    tmp.push(48 + rest as u8);
    assert(tmp@.reverse() =~= seq![(48 + rest) as u8] + before.reverse());
    tmp
}

/// Writes `v` in decimal at the start of `dst`, cut off where `dst` ends, and
/// returns the number of bytes written.
pub fn write_u32(dst: &mut [u8], v: u32) -> (n: usize)
    ensures
        n == if decimal(v as nat).len() <= old(dst)@.len() {
            decimal(v as nat).len()
        } else {
            old(dst)@.len()
        },
        final(dst)@ == decimal(v as nat).take(n as int) + old(dst)@.skip(n as int),
{
    let tmp = digits_reversed(v);
    proof {
        lemma_decimal_u32(v);
    }
    let ghost all = decimal(v as nat);
    let mut i: usize = tmp.len();
    let mut n: usize = 0;
    assert(all.take(0) + dst@.skip(0) =~= dst@);
    while i > 0
        invariant
            tmp@.reverse() == all,
            i <= tmp@.len(),
            n <= old(dst)@.len(),
            n == tmp@.len() - i || (n == old(dst)@.len() && n <= tmp@.len() - i),
            dst@ == all.take(n as int) + old(dst)@.skip(n as int),
        decreases i,
    {
        i = i - 1;
        if n < dst.len() {
            assert(tmp@[i as int] == all[n as int]);
            dst[n] = tmp[i];
            n = n + 1;
            assert(dst@ =~= all.take(n as int) + old(dst)@.skip(n as int));
        }
    }
    n
}

/// Appends `b` to `out`.
pub fn push_bytes(out: &mut Vec<u8>, b: &[u8])
    ensures
        final(out)@ == old(out)@ + b@,
{
    let mut i: usize = 0;
    while i < b.len()
        invariant
            i <= b@.len(),
            out@ == old(out)@ + b@.take(i as int),
        decreases b@.len() - i,
    {
        out.push(b[i]);
        i = i + 1;
        assert(out@ =~= old(out)@ + b@.take(i as int));
    }
    assert(b@.take(i as int) =~= b@);
}

/// Appends the bytes of `s` to `out`.
pub fn push_str(out: &mut Vec<u8>, s: &str)
    ensures
        final(out)@ == old(out)@ + utf8(s@),
{
    push_bytes(out, s.as_bytes());
}

/// Appends `v` in decimal to `out`.
pub fn wr_num(out: &mut Vec<u8>, v: u32)
    ensures
        final(out)@ == old(out)@ + decimal(v as nat),
{
    let tmp = digits_reversed(v);
    let mut i: usize = tmp.len();
    while i > 0
        invariant
            i <= tmp@.len(),
            tmp@.reverse() == decimal(v as nat),
            out@ == old(out)@ + decimal(v as nat).take(tmp@.len() - i),
        decreases i,
    {
        i = i - 1;
        out.push(tmp[i]);
        assert(out@ =~= old(out)@ + decimal(v as nat).take(tmp@.len() - i));
    }
    assert(decimal(v as nat).take(tmp@.len() as int) =~= decimal(v as nat));
}

/// Appends `v` in decimal to `out`, with a minus sign where it is negative.
pub fn wr_num_i32(out: &mut Vec<u8>, v: i32)
    ensures
        final(out)@ == old(out)@ + signed_decimal(v as int),
{
    if v < 0 {
        push_str(out, "-");
        proof {
            reveal_strlit("-");
            vstd::utf8::is_ascii_chars_encode_utf8("-"@);
            assert(utf8("-"@) =~= seq!['-' as u8]);
        }
        let magnitude: u32 = (-(v as i64)) as u32;
        wr_num(out, magnitude);
    } else {
        wr_num(out, v as u32);
    }
    assert(out@ =~= old(out)@ + signed_decimal(v as int));
}

/// A hexadecimal digit.
pub open spec fn hex_digit(d: nat) -> u8 {
    if d < 10 {
        (48 + d) as u8
    } else {
        (87 + d) as u8
    }
}

/// The hexadecimal digits of `v`, most significant first, without leading zeros.
pub open spec fn hex(v: nat) -> Seq<u8>
    decreases v,
{
    if v < 16 {
        seq![hex_digit(v)]
    } else {
        hex(v / 16).push(hex_digit(v % 16))
    }
}

fn digit_of(d: u8) -> (b: u8)
    requires
        d < 16,
    ensures
        b == hex_digit(d as nat),
{
    if d < 10 {
        48 + d
    } else {
        87 + d
    }
}

/// Appends `v` in hexadecimal to `out`.
pub fn wr_hex(out: &mut Vec<u8>, v: u32)
    ensures
        final(out)@ == old(out)@ + hex(v as nat),
    decreases v,
{
    if v >= 16 {
        wr_hex(out, v / 16);
    }
    out.push(digit_of((v % 16) as u8));
    assert(out@ =~= old(out)@ + hex(v as nat));
}

/// The part of a zero-terminated name before its terminator.
pub open spec fn before_nul(name: Seq<u8>) -> Seq<u8>
    decreases name.len(),
{
    if name.len() == 0 || name[0] == 0 {
        Seq::empty()
    } else {
        seq![name[0]] + before_nul(name.drop_first())
    }
}

/// The prefix up to the first zero byte is `before_nul`.
proof fn lemma_before_nul(name: Seq<u8>, n: int)
    requires
        0 <= n <= name.len(),
        forall|i: int| 0 <= i < n ==> name[i] != 0,
        n == name.len() || name[n] == 0,
    ensures
        before_nul(name) == name.take(n),
    decreases name.len(),
{
    if n > 0 {
        lemma_before_nul(name.drop_first(), n - 1);
        assert(seq![name[0]] + name.drop_first().take(n - 1) =~= name.take(n));
    } else {
        assert(name.take(0) =~= Seq::<u8>::empty());
    }
}

/// The number of bytes of `name` before its first zero byte.
pub fn name_len(name: &[u8]) -> (n: usize)
    ensures
        n <= name@.len(),
        name@.take(n as int) == before_nul(name@),
        forall|i: int| 0 <= i < n ==> name@[i] != 0,
        n == name@.len() || name@[n as int] == 0,
{
    let mut n: usize = 0;
    while n < name.len() && name[n] != 0
        invariant
            n <= name@.len(),
            forall|i: int| 0 <= i < n ==> name@[i] != 0,
        decreases name@.len() - n,
    {
        n = n + 1;
    }
    proof {
        lemma_before_nul(name@, n as int);
    }
    n
}

/// Appends a zero-terminated name to `out`, without the terminator.
pub fn wr_name(out: &mut Vec<u8>, name: &[u8])
    ensures
        final(out)@ == old(out)@ + before_nul(name@),
{
    let n: usize = name_len(name);
    let mut i: usize = 0;
    while i < n
        invariant
            i <= n <= name@.len(),
            out@ == old(out)@ + name@.take(i as int),
        decreases n - i,
    {
        out.push(name[i]);
        i = i + 1;
        assert(out@ =~= old(out)@ + name@.take(i as int));
    }
}

/// The first `cap` bytes of `s`, or all of it where it is shorter.
pub open spec fn cut(s: Seq<u8>, cap: nat) -> Seq<u8> {
    if s.len() <= cap {
        s
    } else {
        s.take(cap as int)
    }
}

/// A writer with a fixed capacity: what does not fit is cut off.
pub struct BufWriter {
    buf: Vec<u8>,
    cap: usize,
}

impl BufWriter {
    /// What has been kept so far.
    pub closed spec fn view(&self) -> Seq<u8> {
        self.buf@
    }

    /// The capacity.
    pub closed spec fn capacity(&self) -> nat {
        self.cap as nat
    }

    /// No more is kept than the capacity allows.
    pub closed spec fn wf(&self) -> bool {
        self.buf@.len() <= self.cap
    }

    /// An empty writer that keeps at most `cap` bytes.
    pub fn new(cap: usize) -> (w: BufWriter)
        ensures
            w.wf(),
            w.capacity() == cap,
            w@ == Seq::<u8>::empty(),
    {
        BufWriter { buf: Vec::new(), cap }
    }

    /// The number of bytes kept.
    pub fn pos(&self) -> (n: usize)
        requires
            self.wf(),
        ensures
            n == self@.len(),
            n <= self.capacity(),
    {
        self.buf.len()
    }

    /// The bytes kept.
    pub fn as_slice(&self) -> (s: &[u8])
        ensures
            s@ == self@,
    {
        self.buf.as_slice()
    }

    /// Appends `s` as far as there is room.
    pub fn write_bytes(&mut self, s: &[u8])
        requires
            old(self).wf(),
        ensures
            final(self).wf(),
            final(self).capacity() == old(self).capacity(),
            final(self)@ == cut(old(self)@ + s@, old(self).capacity()),
    {
        let ghost start = self.buf@;
        let mut i: usize = 0;
        while i < s.len() && self.buf.len() < self.cap
            invariant
                i <= s@.len(),
                self.cap == old(self).cap,
                self.buf@ == start + s@.take(i as int),
                self.buf@.len() <= self.cap,
            decreases s@.len() - i,
        {
            self.buf.push(s[i]);
            i = i + 1;
            assert(self.buf@ =~= start + s@.take(i as int));
        }
        assert(self.buf@ =~= cut(start + s@, self.cap as nat));
    }
}

/// Writing two pieces one after the other keeps what writing them joined keeps.
pub proof fn law_writer_joins_pieces(kept: Seq<u8>, a: Seq<u8>, b: Seq<u8>, cap: nat)
    requires
        kept.len() <= cap,
    ensures
        cut(cut(kept + a, cap) + b, cap) == cut(kept + (a + b), cap),
{
    assert(cut(cut(kept + a, cap) + b, cap) =~= cut(kept + (a + b), cap));
}

/// A line shows a value under a label: the label stands in it, with the value right
/// behind it.
pub open spec fn shows(line: Seq<u8>, label: Seq<char>, value: Seq<u8>) -> bool {
    exists|a: Seq<u8>, b: Seq<u8>| line == #[trigger] (a + utf8(label) + value + b)
}

/// A line that is put together from what is before a label, the label, a value and
/// what is behind it, shows the value.
pub proof fn lemma_shows(line: Seq<u8>, label: Seq<char>, value: Seq<u8>, a: Seq<u8>, b: Seq<u8>)
    requires
        line == a + utf8(label) + value + b,
    ensures
        shows(line, label, value),
{
}

/// A line that ends in a label and a value shows the value.
pub proof fn lemma_shows_on(line: Seq<u8>, label: Seq<char>, value: Seq<u8>)
    ensures
        shows(line + utf8(label) + value, label, value),
{
    let all = line + utf8(label) + value;
    assert(all =~= line + utf8(label) + value + Seq::<u8>::empty());
}

/// A line that goes on still shows what it showed.
pub proof fn lemma_shows_grows(
    line: Seq<u8>,
    x: Seq<u8>,
    y: Seq<u8>,
    label: Seq<char>,
    value: Seq<u8>,
)
    requires
        shows(line, label, value),
    ensures
        shows(line + x + y, label, value),
{
    let (a, b) = choose|a: Seq<u8>, b: Seq<u8>| line == #[trigger] (a + utf8(label) + value + b);
    assert(line + x + y =~= a + utf8(label) + value + (b + x + y));
}

/// The number that a string of hexadecimal digits denotes.
pub open spec fn hex_value(s: Seq<u8>) -> nat
    decreases s.len(),
{
    if s.len() == 0 {
        0
    } else {
        16 * hex_value(s.drop_last()) + if s.last() >= 97 {
            (s.last() - 97 + 10) as nat
        } else {
            (s.last() - 48) as nat
        }
    }
}

/// Reading the hexadecimal digits of a number back gives the number; they are digits
/// and small letters, and none of them is a leading zero.
pub proof fn law_hex_reads_back(v: nat)
    ensures
        hex_value(hex(v)) == v,
        hex(v).len() >= 1,
        v > 0 ==> hex(v)[0] != 48,
        forall|i: int|
            0 <= i < hex(v).len() ==> 48 <= #[trigger] hex(v)[i] <= 57 || 97 <= hex(v)[i] <= 102,
    decreases v,
{
    if v >= 16 {
        law_hex_reads_back(v / 16);
        assert(hex(v).drop_last() =~= hex(v / 16));
    } else {
        assert(hex(v).drop_last() =~= Seq::<u8>::empty());
        assert(hex_value(Seq::<u8>::empty()) == 0);
    }
}

/// A decimal number has no leading zeros.
pub proof fn law_decimal_has_no_leading_zeros(v: nat)
    ensures
        decimal(v).len() >= 1,
        v > 0 ==> decimal(v)[0] != 48,
    decreases v,
{
    if v >= 10 {
        law_decimal_has_no_leading_zeros(v / 10);
    }
}

/// A negative number is its distance from zero behind a minus sign; any other has no
/// sign.
pub proof fn law_signed_decimal_reads_back(v: int)
    ensures
        v < 0 ==> signed_decimal(v)[0] == 45 && decimal_value(signed_decimal(v).skip(1)) == -v,
        v >= 0 ==> decimal_value(signed_decimal(v)) == v,
{
    if v < 0 {
        law_decimal_reads_back((-v) as nat);
        assert(signed_decimal(v).skip(1) =~= decimal((-v) as nat));
    } else {
        law_decimal_reads_back(v as nat);
    }
}

/// The part of a name before its terminator is the longest prefix without a zero byte.
pub proof fn law_name_ends_at_the_first_zero(name: Seq<u8>)
    ensures
        ({
            let n = before_nul(name).len() as int;
            &&& n <= name.len()
            &&& before_nul(name) == name.take(n)
            &&& forall|i: int| 0 <= i < n ==> #[trigger] name[i] != 0
            &&& n < name.len() ==> name[n] == 0
        }),
    decreases name.len(),
{
    if name.len() == 0 || name[0] == 0 {
        assert(name.take(0) =~= Seq::<u8>::empty());
    } else {
        let rest = name.drop_first();
        law_name_ends_at_the_first_zero(rest);
        let n = before_nul(name).len() as int;
        assert(before_nul(name) =~= name.take(n)) by {
            assert(name.take(n) =~= seq![name[0]] + rest.take(n - 1));
        }
        assert forall|i: int| 0 <= i < n implies #[trigger] name[i] != 0 by {
            if i > 0 {
                assert(rest[i - 1] == name[i]);
            }
        }
        if n < name.len() {
            assert(rest[n - 1] == name[n]);
        }
    }
}

/// What a writer keeps is the start of what was written, and all of it where it fits.
pub proof fn law_cut_keeps_the_start(s: Seq<u8>, cap: nat)
    ensures
        cut(s, cap).is_prefix_of(s),
        s.len() <= cap ==> cut(s, cap) == s,
        s.len() > cap ==> cut(s, cap).len() == cap,
{
}

/// Of `wr_num` and `wr_hex`: what is appended reads back as the number, and what was
/// there stays.
pub proof fn law_appended_number_reads_back(a: &mut Vec<u8>, b: &mut Vec<u8>, v: u32)
    requires
        call_ensures(wr_num, (a, v), ()),
        call_ensures(wr_hex, (b, v), ()),
    ensures
        final(a)@.take(old(a)@.len() as int) == old(a)@,
        decimal_value(final(a)@.skip(old(a)@.len() as int)) == v,
        final(b)@.take(old(b)@.len() as int) == old(b)@,
        hex_value(final(b)@.skip(old(b)@.len() as int)) == v,
{
    law_decimal_reads_back(v as nat);
    law_hex_reads_back(v as nat);
    assert(final(a)@.take(old(a)@.len() as int) =~= old(a)@);
    assert(final(a)@.skip(old(a)@.len() as int) =~= decimal(v as nat));
    assert(final(b)@.take(old(b)@.len() as int) =~= old(b)@);
    assert(final(b)@.skip(old(b)@.len() as int) =~= hex(v as nat));
}

/// Of `write_u32`: where there is room the digits of the number stand at the start and
/// read back as it, and what is behind them stays.
pub proof fn law_written_number_reads_back(dst: &mut [u8], v: u32, n: usize)
    requires
        old(dst)@.len() >= 10,
        call_ensures(write_u32, (dst, v), n),
    ensures
        1 <= n <= 10,
        decimal_value(final(dst)@.take(n as int)) == v,
        final(dst)@.skip(n as int) == old(dst)@.skip(n as int),
{
    lemma_decimal_u32(v);
    law_decimal_reads_back(v as nat);
    assert(final(dst)@.take(n as int) =~= decimal(v as nat));
    assert(final(dst)@.skip(n as int) =~= old(dst)@.skip(n as int));
}

} // verus!
