//! The controller gains that the ground station can read and write.

use crate::real32::Real32;
use crate::real32;
use crate::text;
use vstd::prelude::*;

verus! {

/// Number of parameters.
pub const PARAM_COUNT: usize = 5;

/// Bytes in a parameter name, zero-padded.
pub const NAME_LEN: usize = 16;

/// A name filled up with zero bytes.
pub open spec fn padded(s: Seq<u8>) -> Seq<u8> {
    s + Seq::new((NAME_LEN - s.len()) as nat, |i: int| 0u8)
}

/// The names, in the order of the table.
pub open spec fn name_text(i: int) -> Seq<char> {
    if i == 0 {
        "KpXY"@
    } else if i == 1 {
        "KpZ"@
    } else if i == 2 {
        "KvXY"@
    } else if i == 3 {
        "KvZ"@
    } else {
        "HoverThrust"@
    }
}

/// Name `i` as it stands in a message.
pub open spec fn name_of(i: int) -> Seq<u8> {
    padded(text::utf8(name_text(i)))
}

/// Smallest value of parameter `i`: zero, and a tenth for the hover thrust.
pub open spec fn min_of(i: int) -> Real32 {
    Real32 {
        bits: if i == 4 {
            real32::TENTH_BITS
        } else {
            real32::ZERO_BITS
        },
    }
}

/// Largest value of parameter `i`: five, and one for the hover thrust.
pub open spec fn max_of(i: int) -> Real32 {
    Real32 {
        bits: if i == 4 {
            real32::ONE_BITS
        } else {
            real32::FIVE_BITS
        },
    }
}

/// Start value of parameter `i`.
pub open spec fn default_of(i: int) -> Real32 {
    Real32 {
        bits: if i == 2 || i == 3 {
            real32::FOUR_FIFTHS_BITS
        } else {
            real32::HALF_BITS
        },
    }
}

/// Whether `v` may be written to parameter `i`.
pub open spec fn legal(i: int, v: Real32) -> bool {
    v.within(min_of(i), max_of(i))
}

/// A table in which every value is legal.
pub open spec fn table_ok(vals: Seq<Real32>) -> bool {
    vals.len() == PARAM_COUNT && forall|i: int|
        0 <= i < PARAM_COUNT ==> legal(i, #[trigger] vals[i])
}

/// The names fit their field and are text without zero bytes.
proof fn lemma_names()
    ensures
        text::utf8(name_text(0)) == seq!['K' as u8, 'p' as u8, 'X' as u8, 'Y' as u8],
        text::utf8(name_text(1)) == seq!['K' as u8, 'p' as u8, 'Z' as u8],
        text::utf8(name_text(2)) == seq!['K' as u8, 'v' as u8, 'X' as u8, 'Y' as u8],
        text::utf8(name_text(3)) == seq!['K' as u8, 'v' as u8, 'Z' as u8],
        text::utf8(name_text(4)).len() == 11,
        text::utf8(name_text(4))[0] == 'H' as u8,
{
    reveal_strlit("KpXY");
    reveal_strlit("KpZ");
    reveal_strlit("KvXY");
    reveal_strlit("KvZ");
    reveal_strlit("HoverThrust");
    vstd::utf8::is_ascii_chars_encode_utf8("KpXY"@);
    vstd::utf8::is_ascii_chars_encode_utf8("KpZ"@);
    vstd::utf8::is_ascii_chars_encode_utf8("KvXY"@);
    vstd::utf8::is_ascii_chars_encode_utf8("KvZ"@);
    vstd::utf8::is_ascii_chars_encode_utf8("HoverThrust"@);
    assert(text::utf8("KpXY"@) =~= seq!['K' as u8, 'p' as u8, 'X' as u8, 'Y' as u8]);
    assert(text::utf8("KpZ"@) =~= seq!['K' as u8, 'p' as u8, 'Z' as u8]);
    assert(text::utf8("KvXY"@) =~= seq!['K' as u8, 'v' as u8, 'X' as u8, 'Y' as u8]);
    assert(text::utf8("KvZ"@) =~= seq!['K' as u8, 'v' as u8, 'Z' as u8]);
}

/// No two parameters share a name, so a name finds at most one of them.
pub proof fn law_names_distinct(i: int, j: int)
    requires
        0 <= i < PARAM_COUNT,
        0 <= j < PARAM_COUNT,
        name_of(i) == name_of(j),
    ensures
        i == j,
{
    lemma_names();
    let a = name_of(i);
    let b = name_of(j);
    assert(a[0] == b[0] && a[1] == b[1] && a[2] == b[2] && a[3] == b[3]);
}

/// Name `i` as it stands in a message.
pub fn param_name(i: usize) -> (n: [u8; 16])
    requires
        i < PARAM_COUNT,
    ensures
        n@ == name_of(i as int),
{
    let s: &str = match i {
        0 => "KpXY",
        1 => "KpZ",
        2 => "KvXY",
        3 => "KvZ",
        _ => "HoverThrust",
    };
    proof {
        lemma_names();
    }
    assert(s@ == name_text(i as int));
    let b = s.as_bytes();
    let mut n: [u8; 16] = [0u8; 16];
    let mut k: usize = 0;
    assert(n@ =~= b@.take(0) + Seq::new((NAME_LEN - 0) as nat, |j: int| 0u8));
    while k < b.len()
        invariant
            k <= b@.len() <= NAME_LEN,
            n@ == b@.take(k as int) + Seq::new((NAME_LEN - k) as nat, |j: int| 0u8),
        decreases b@.len() - k,
    {
        n[k] = b[k];
        k = k + 1;
        assert(n@ =~= b@.take(k as int) + Seq::new((NAME_LEN - k) as nat, |j: int| 0u8));
    }
    assert(b@.take(k as int) =~= b@);
    n
}

/// Whether two names are the same.
fn same_name(a: &[u8; 16], b: &[u8; 16]) -> (same: bool)
    ensures
        same == (a@ == b@),
{
    let mut k: usize = 0;
    while k < NAME_LEN
        invariant
            k <= NAME_LEN,
            forall|j: int| 0 <= j < k ==> a@[j] == b@[j],
        decreases NAME_LEN - k,
    {
        if a[k] != b[k] {
            assert(a@[k as int] != b@[k as int]);
            return false;
        }
        k = k + 1;
    }
    assert(a@ =~= b@);
    true
}

/// The place of a parameter in the table, by its name.
pub fn find_param(id: &[u8; 16]) -> (r: Option<usize>)
    ensures
        match r {
            Some(i) => i < PARAM_COUNT && id@ == name_of(i as int),
            None => forall|i: int| 0 <= i < PARAM_COUNT ==> id@ != #[trigger] name_of(i),
        },
{
    let mut i: usize = 0;
    while i < PARAM_COUNT
        invariant
            i <= PARAM_COUNT,
            forall|j: int| 0 <= j < i ==> id@ != #[trigger] name_of(j),
        decreases PARAM_COUNT - i,
    {
        let n = param_name(i);
        if same_name(&n, id) {
            return Some(i);
        }
        i = i + 1;
    }
    None
}

/// A name without its padding, for the log.
pub fn param_name_str(name: &[u8; 16]) -> (s: &[u8])
    ensures
        s@ == text::before_nul(name@),
{
    let all = vstd::array::array_as_slice(name);
    let n: usize = text::name_len(all);
    let s = vstd::slice::slice_subrange(all, 0, n);
    assert(s@ =~= name@.take(n as int));
    s
}

fn param_min(i: usize) -> (v: Real32)
    ensures
        v == min_of(i as int),
{
    Real32 {
        bits: if i == 4 {
            real32::TENTH_BITS
        } else {
            real32::ZERO_BITS
        },
    }
}

fn param_max(i: usize) -> (v: Real32)
    ensures
        v == max_of(i as int),
{
    Real32 {
        bits: if i == 4 {
            real32::ONE_BITS
        } else {
            real32::FIVE_BITS
        },
    }
}

/// What became of a request to write a parameter.
#[derive(Clone, Copy, Debug, PartialEq, Eq, Structural)]
pub enum SetOutcome {
    /// There is no parameter of that name.
    Unknown,
    /// The value is not legal; nothing was written.
    Refused,
    /// The value was written to this parameter.
    Written(usize),
}

/// The table after a request to write `v` under a name, and what became of it.
pub open spec fn after_set(vals: Seq<Real32>, id: Seq<u8>, v: Real32) -> (Seq<Real32>, SetOutcome) {
    if exists|i: int| 0 <= i < PARAM_COUNT && id == #[trigger] name_of(i) {
        let i = choose|i: int| 0 <= i < PARAM_COUNT && id == #[trigger] name_of(i);
        if legal(i, v) {
            (vals.update(i, v), SetOutcome::Written(i as usize))
        } else {
            (vals, SetOutcome::Refused)
        }
    } else {
        (vals, SetOutcome::Unknown)
    }
}

/// The table of parameter values.
pub struct ParamTable {
    vals: Vec<Real32>,
}

impl ParamTable {
    /// The values, in the order of the table.
    pub closed spec fn view(&self) -> Seq<Real32> {
        self.vals@
    }

    /// Every value is legal.
    pub open spec fn wf(&self) -> bool {
        table_ok(self@)
    }

    /// The table with its start values.
    pub fn init_param_defaults() -> (t: ParamTable)
        ensures
            t.wf(),
            t@ == Seq::new(5, |i: int| default_of(i)),
    {
        let half = Real32 { bits: real32::HALF_BITS };
        let most = Real32 { bits: real32::FOUR_FIFTHS_BITS };
        let mut vals: Vec<Real32> = Vec::new();
        vals.push(half);
        vals.push(half);
        vals.push(most);
        vals.push(most);
        vals.push(half);
        assert(vals@ =~= Seq::new(5, |i: int| default_of(i)));
        proof {
            assert forall|i: int| 0 <= i < PARAM_COUNT implies legal(i, #[trigger] vals@[i]) by {
                vals@[i].lemma_within_by_bits(min_of(i), max_of(i));
            }
        }
        ParamTable { vals }
    }

    /// The value of parameter `i`.
    pub fn get(&self, i: usize) -> (v: Real32)
        requires
            self.wf(),
            i < PARAM_COUNT,
        ensures
            v == self@[i as int],
    {
        self.vals[i]
    }

    /// Writes a value under a name, if it is legal.
    pub fn set(&mut self, id: &[u8; 16], v: Real32) -> (r: SetOutcome)
        requires
            old(self).wf(),
        ensures
            final(self).wf(),
            (final(self)@, r) == after_set(old(self)@, id@, v),
    {
        match find_param(id) {
            Some(i) => {
                proof {
                    let j = choose|j: int| 0 <= j < PARAM_COUNT && id@ == #[trigger] name_of(j);
                    assert(id@ == name_of(i as int));
                    law_names_distinct(i as int, j);
                }
                if !v.in_range(param_min(i), param_max(i)) {
                    return SetOutcome::Refused;
                }
                self.vals.set(i, v);
                SetOutcome::Written(i)
            },
            None => SetOutcome::Unknown,
        }
    }
}

/// The gains that the control task applies in its next cycle, in the order of
/// the table.
pub fn sync_gains_to_pid(t: &ParamTable) -> (g: Vec<Real32>)
    requires
        t.wf(),
    ensures
        g@ == t@,
{
    let mut g: Vec<Real32> = Vec::new();
    let mut i: usize = 0;
    while i < PARAM_COUNT
        invariant
            i <= PARAM_COUNT,
            t.wf(),
            g@ == t@.take(i as int),
        decreases PARAM_COUNT - i,
    {
        g.push(t.get(i));
        i = i + 1;
        assert(g@ =~= t@.take(i as int));
    }
    assert(t@.take(i as int) =~= t@);
    g
}

/// Writing changes at most the parameter of that name and leaves a table of
/// legal values; what was written is what the table then holds.
pub proof fn law_set_is_local(vals: Seq<Real32>, i: int, v: Real32)
    requires
        table_ok(vals),
        0 <= i < PARAM_COUNT,
    ensures
        table_ok(after_set(vals, name_of(i), v).0),
        legal(i, v) ==> after_set(vals, name_of(i), v) == (
            vals.update(i, v),
            SetOutcome::Written(i as usize),
        ),
        !legal(i, v) ==> after_set(vals, name_of(i), v) == (vals, SetOutcome::Refused),
{
    let j = choose|j: int| 0 <= j < PARAM_COUNT && name_of(i) == #[trigger] name_of(j);
    assert(name_of(i) == name_of(i));
    law_names_distinct(i, j);
}

/// A value that is not a number is never legal.
pub proof fn law_nan_is_not_legal(i: int, v: Real32)
    requires
        v.is_nan(),
    ensures
        !legal(i, v),
{
}

/// The gains may be from zero to five and the hover thrust from a tenth to one, ends
/// included; nothing else may be written.
pub proof fn law_legal_ranges(i: int, v: Real32)
    requires
        0 <= i < 5,
    ensures
        i < 4 ==> (legal(i, v) <==> !v.is_nan() && 0 <= v.units() <= (Real32 {
            bits: 0x40A0_0000,
        }).units()),
        i == 4 ==> (legal(i, v) <==> !v.is_nan() && (Real32 { bits: 0x3DCC_CCCD }).units()
            <= v.units() <= (Real32 { bits: 0x3F80_0000 }).units()),
{
}

/// The start values are legal: a half for the position gains and the hover thrust, four
/// fifths for the speed gains.
pub proof fn law_start_values_are_legal()
    ensures
        table_ok(Seq::new(5, |i: int| default_of(i))),
        default_of(0) == (Real32 { bits: 0x3F00_0000 }),
        default_of(1) == (Real32 { bits: 0x3F00_0000 }),
        default_of(2) == (Real32 { bits: 0x3F4C_CCCD }),
        default_of(3) == (Real32 { bits: 0x3F4C_CCCD }),
        default_of(4) == (Real32 { bits: 0x3F00_0000 }),
{
    let t = Seq::new(5, |i: int| default_of(i));
    assert forall|i: int| 0 <= i < PARAM_COUNT implies legal(i, #[trigger] t[i]) by {
        t[i].lemma_within_by_bits(min_of(i), max_of(i));
    }
}

/// Whatever is asked, a write changes at most one value, and that to the one asked
/// for; a name that no parameter has, and a value that is not legal, change nothing.
pub proof fn law_write_changes_one_value(vals: Seq<Real32>, id: Seq<u8>, v: Real32)
    requires
        table_ok(vals),
    ensures
        ({
            let (w, r) = after_set(vals, id, v);
            &&& w.len() == vals.len()
            &&& forall|j: int|
                0 <= j < 5 ==> w[j] == vals[j] || (w[j] == v && id == #[trigger] name_of(j) && legal(
                    j,
                    v,
                ))
            &&& (forall|j: int| 0 <= j < 5 ==> id != #[trigger] name_of(j)) <==> r
                == SetOutcome::Unknown
            &&& !(r is Written) ==> w == vals
            &&& forall|j: int|
                0 <= j < 5 && id == #[trigger] name_of(j) && legal(j, v) ==> w[j] == v && r
                    == SetOutcome::Written(j as usize)
        }),
{
    assert forall|j: int| 0 <= j < 5 && id == #[trigger] name_of(j) implies after_set(vals, id, v)
        == if legal(j, v) {
        (vals.update(j, v), SetOutcome::Written(j as usize))
    } else {
        (vals, SetOutcome::Refused)
    } by {
        law_set_is_local(vals, j, v);
    }
}

/// Of `set` and `get`: what was written under a parameter's name is what the table
/// gives for it; the other values, and all of them where the value is not legal or the
/// name is unknown, are as before.
pub proof fn law_set_then_get(
    t: &mut ParamTable,
    id: &[u8; 16],
    v: Real32,
    r: SetOutcome,
    i: usize,
    got: Real32,
)
    requires
        old(t).wf(),
        i < 5,
        call_ensures(ParamTable::set, (t, id, v), r),
        call_ensures(ParamTable::get, (&*final(t), i), got),
    ensures
        id@ == name_of(i as int) && legal(i as int, v) ==> got == v && r == SetOutcome::Written(i),
        id@ != name_of(i as int) || !legal(i as int, v) ==> got == old(t)@[i as int],
        id@ == name_of(i as int) && !legal(i as int, v) ==> r == SetOutcome::Refused,
        r == SetOutcome::Unknown ==> id@ != name_of(i as int),
{
    law_write_changes_one_value(old(t)@, id@, v);
    if id@ == name_of(i as int) {
        law_set_is_local(old(t)@, i as int, v);
    }
}

/// Of `param_name`: no two parameters go by the same name in a message.
pub proof fn law_param_names(i: usize, j: usize, a: [u8; 16], b: [u8; 16])
    requires
        i < 5,
        j < 5,
        call_ensures(param_name, (i,), a),
        call_ensures(param_name, (j,), b),
    ensures
        a@ == b@ ==> i == j,
        a@ == name_of(i as int),
{
    if a@ == b@ {
        law_names_distinct(i as int, j as int);
    }
}

} // verus!
