//! Neutralising the five-second sleep of a binary: every `mov ecx, 5000`
//! directly followed by `call dword ptr [Sleep]` is overwritten with `nop`s.
use vstd::prelude::*;

verus! {

/// `mov ecx, 0x1388` then the opcode of an indirect `call`.
pub open spec fn sleep_pattern() -> Seq<u8> {
    seq![0xB9u8, 0x88u8, 0x13u8, 0x00u8, 0x00u8, 0xFFu8, 0x15u8]
}

pub const PATTERN_LEN: usize = 7;

/// Bytes overwritten at each match: the `mov` and the whole `call`.
pub const PATCH_LEN: usize = 11;

pub const NOP: u8 = 0x90;

pub open spec fn pattern_at(buf: Seq<u8>, i: int) -> bool {
    &&& 0 <= i
    &&& i + 7 <= buf.len()
    &&& forall|k: int| 0 <= k < 7 ==> buf[i + k] == #[trigger] sleep_pattern()[k]
}

/// The offsets that are patched: those where the pattern starts and the
/// eleven bytes to overwrite lie inside the buffer.
pub open spec fn is_patch_offset(buf: Seq<u8>, i: int) -> bool {
    &&& 0 <= i
    &&& i + 11 <= buf.len()
    &&& pattern_at(buf, i)
}

pub open spec fn is_patched_byte(buf: Seq<u8>, k: int) -> bool {
    exists|i: int| is_patch_offset(buf, i) && i <= k < i + 11
}

/// `buf` with the eleven bytes at every patch offset, all found before any
/// byte is changed, replaced by `nop`.
pub open spec fn patched(buf: Seq<u8>) -> Seq<u8> {
    Seq::new(buf.len(), |k: int| if is_patched_byte(buf, k) { NOP } else { buf[k] })
}

/// Byte `k` lies in the eleven bytes after one of the first `m` offsets.
pub open spec fn covered_by(offsets: Seq<usize>, m: int, k: int) -> bool {
    exists|t: int| 0 <= t < m && #[trigger] offsets[t] <= k < offsets[t] + 11
}

fn pattern_at_exec(buf: &Vec<u8>, i: usize) -> (r: bool)
    requires
        i + 7 <= buf@.len(),
    ensures
        r == pattern_at(buf@, i as int),
{
    let pat: [u8; 7] = [0xB9, 0x88, 0x13, 0x00, 0x00, 0xFF, 0x15];
    assert(pat@ =~= sleep_pattern());
    let n = buf.len();
    let mut k: usize = 0;
    while k < PATTERN_LEN
        invariant
            n == buf@.len(),
            k <= 7,
            i + 7 <= buf@.len(),
            pat@ == sleep_pattern(),
            forall|m: int| 0 <= m < k ==> buf@[i + m] == #[trigger] sleep_pattern()[m],
        decreases 7 - k,
    {
        if buf[i + k] != pat[k] {
            return false;
        }
        k = k + 1;
    }
    true
}

/// Whether `buf` can be scanned and patched: it holds at least seven bytes,
/// and if fewer than eleven, it does not start with the pattern.
pub fn is_patchable(buf: &Vec<u8>) -> (r: bool)
    ensures
        r == (buf@.len() >= 7 && (buf@.len() < 11 ==> !pattern_at(buf@, 0))),
{
    let n = buf.len();
    if n < PATTERN_LEN {
        false
    } else if n < PATCH_LEN {
        !pattern_at_exec(buf, 0)
    } else {
        true
    }
}

/// Overwrites every `mov ecx, 5000; call [Sleep]` of `buf` with `nop`s. The
/// matches are all found first, so that overlapping ones are patched too.
/// A buffer shorter than eleven bytes must not start with the pattern, and
/// one shorter than seven bytes is too short to be scanned.
pub fn patch_sleep_calls(buf: &mut Vec<u8>)
    requires
        old(buf)@.len() >= 7,
        old(buf)@.len() < 11 ==> !pattern_at(old(buf)@, 0),
    ensures
        final(buf)@ == patched(old(buf)@),
{
    let ghost orig = buf@;
    let n = buf.len();
    let mut offsets: Vec<usize> = Vec::new();
    if n >= PATCH_LEN {
        let last = n - PATCH_LEN;
        let mut i: usize = 0;
        while i <= last
            invariant
                n == orig.len(),
                buf@ == orig,
                n >= 11,
                last == n - 11,
                i <= last + 1,
                forall|t: int| 0 <= t < offsets@.len() ==> is_patch_offset(orig, #[trigger] offsets@[t] as int),
                forall|x: int| 0 <= x < i && is_patch_offset(orig, x) ==> offsets@.contains(x as usize),
            decreases last + 1 - i,
        {
            let ghost before = offsets@;
            if pattern_at_exec(buf, i) {
                offsets.push(i);
            }
            proof {
                assert forall|x: int| 0 <= x < i + 1 && is_patch_offset(orig, x) implies offsets@.contains(x as usize) by {
                    if x == i {
                        assert(offsets@[offsets@.len() - 1] == i);
                    } else {
                        assert(before.contains(x as usize));
                        let t = choose|t: int| 0 <= t < before.len() && before[t] == x as usize;
                        assert(offsets@[t] == x as usize);
                    }
                }
            }
            i = i + 1;
        }
    }
    proof {
        assert forall|x: int| is_patch_offset(orig, x) implies offsets@.contains(x as usize) by {
            if n < 11 {
                assert(false);
            }
        }
    }
    let mut m: usize = 0;
    while m < offsets.len()
        invariant
            n == orig.len(),
            buf@.len() == n,
            m <= offsets@.len(),
            forall|t: int| 0 <= t < offsets@.len() ==> is_patch_offset(orig, #[trigger] offsets@[t] as int),
            forall|x: int| is_patch_offset(orig, x) ==> offsets@.contains(x as usize),
            forall|k: int| 0 <= k < n ==> buf@[k] == if covered_by(offsets@, m as int, k) { NOP } else { orig[k] },
        decreases offsets@.len() - m,
    {
        let o = offsets[m];
        assert(is_patch_offset(orig, o as int));
        let mut j: usize = 0;
        while j < PATCH_LEN
            invariant
                n == orig.len(),
                buf@.len() == n,
                m < offsets@.len(),
                o == offsets@[m as int],
                o + 11 <= n,
                j <= 11,
                forall|k: int| 0 <= k < n ==> buf@[k] == if covered_by(offsets@, m as int, k) || (o <= k < o + j) { NOP } else { orig[k] },
            decreases 11 - j,
        {
            buf.set(o + j, NOP);
            j = j + 1;
        }
        assert forall|k: int| 0 <= k < n implies buf@[k] == if covered_by(offsets@, m + 1, k) { NOP } else { orig[k] } by {
            if o <= k < o + 11 {
                assert(offsets@[m as int] <= k < offsets@[m as int] + 11);
            }
            if covered_by(offsets@, m + 1, k) {
                let t = choose|t: int| 0 <= t < m + 1 && #[trigger] offsets@[t] <= k < offsets@[t] + 11;
                if t < m {
                } else {
                    assert(o <= k < o + 11);
                }
            }
        }
        m = m + 1;
    }
    proof {
        assert forall|k: int| 0 <= k < n implies buf@[k] == patched(orig)[k] by {
            if is_patched_byte(orig, k) {
                let i = choose|i: int| is_patch_offset(orig, i) && i <= k < i + 11;
                assert(offsets@.contains(i as usize));
                let t = choose|t: int| 0 <= t < offsets@.len() && #[trigger] offsets@[t] == i as usize;
                assert(offsets@[t] <= k < offsets@[t] + 11);
            }
            if covered_by(offsets@, m as int, k) {
                let t = choose|t: int| 0 <= t < m && #[trigger] offsets@[t] <= k < offsets@[t] + 11;
                assert(is_patch_offset(orig, offsets@[t] as int));
            }
        }
        assert(buf@ =~= patched(orig));
    }
}

} // verus!
