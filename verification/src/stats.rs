//! The integer parts of the system statistics: battery state, memory in MiB,
//! network byte totals, the Core Temp slot arithmetic, and the GPU counter
//! path list.

use vstd::prelude::*;

verus! {

/// The fields of `SYSTEM_POWER_STATUS` that the battery reading uses.
#[derive(Debug, Clone, Copy)]
pub struct SystemPowerStatus {
    pub ac_line_status: u8,
    pub battery_flag: u8,
    pub battery_life_percent: u8,
    pub system_status_flag: u8,
    pub battery_life_time: u32,
    pub battery_full_life_time: u32,
}

/// The battery percentage (or -1 without a battery) and whether it charges,
/// from the result of `GetSystemPowerStatus`: `ok` is whether the call
/// succeeded, `s` what it filled in.
pub fn battery_status(ok: bool, s: &SystemPowerStatus) -> (r: (i32, bool))
    ensures
        r == if !ok || s.battery_flag == 128 || s.battery_life_percent > 100 {
            (-1i32, false)
        } else {
            (s.battery_life_percent as i32, s.ac_line_status == 1)
        },
{
    if !ok {
        return (-1, false);
    }
    if s.battery_flag == 128 || s.battery_life_percent > 100 {
        return (-1, false);
    }
    (s.battery_life_percent as i32, s.ac_line_status == 1)
}

/// Used and total memory in whole MiB, from byte counts.
pub fn memory_mib(total_bytes: u64, used_bytes: u64) -> (r: (u64, u64))
    ensures
        r == ((used_bytes / 0x10_0000) as u64, (total_bytes / 0x10_0000) as u64),
{
    (used_bytes / (1024 * 1024), total_bytes / (1024 * 1024))
}

/// The sum of the received (first) or transmitted (second) byte counts.
pub open spec fn traffic_sum(nets: Seq<(u64, u64)>, received: bool) -> int
    decreases nets.len(),
{
    if nets.len() == 0 {
        0
    } else {
        traffic_sum(nets.drop_last(), received) + if received {
            nets.last().0 as int
        } else {
            nets.last().1 as int
        }
    }
}

proof fn lemma_traffic_sum_monotone(nets: Seq<(u64, u64)>, i: int, received: bool)
    requires
        0 <= i <= nets.len(),
    ensures
        traffic_sum(nets.take(i), received) <= traffic_sum(nets, received),
    decreases nets.len() - i,
{
    if i < nets.len() {
        lemma_traffic_sum_monotone(nets, i + 1, received);
        assert(nets.take(i + 1).drop_last() =~= nets.take(i));
    } else {
        assert(nets.take(i) =~= nets);
    }
}

/// The received and transmitted byte totals over all interfaces.
pub fn network_totals(nets: &[(u64, u64)]) -> (r: (u64, u64))
    requires
        traffic_sum(nets@, true) <= u64::MAX,
        traffic_sum(nets@, false) <= u64::MAX,
    ensures
        r.0 == traffic_sum(nets@, true),
        r.1 == traffic_sum(nets@, false),
{
    let mut rx: u64 = 0;
    let mut tx: u64 = 0;
    let mut i: usize = 0;
    assert(nets@.take(0) =~= Seq::<(u64, u64)>::empty());
    while i < nets.len()
        invariant
            0 <= i <= nets@.len(),
            rx == traffic_sum(nets@.take(i as int), true),
            tx == traffic_sum(nets@.take(i as int), false),
            traffic_sum(nets@, true) <= u64::MAX,
            traffic_sum(nets@, false) <= u64::MAX,
        decreases nets@.len() - i,
    {
        proof {
            assert(nets@.take(i + 1).drop_last() =~= nets@.take(i as int));
            lemma_traffic_sum_monotone(nets@, i + 1, true);
            lemma_traffic_sum_monotone(nets@, i + 1, false);
        }
        rx = rx + nets[i].0;
        tx = tx + nets[i].1;
        i = i + 1;
    }
    assert(nets@.take(i as int) =~= nets@);
    (rx, tx)
}

/// How many per-core temperature slots of Core Temp's shared data to read:
/// cores per CPU times CPUs, at most 256.
pub fn core_temp_slots(core_cnt: u32, cpu_cnt: u32) -> (n: usize)
    ensures
        n == if core_cnt * cpu_cnt < 256 {
            core_cnt * cpu_cnt
        } else {
            256
        },
{
    proof {
        assert((core_cnt as int) * (cpu_cnt as int) <= 0xffff_ffffint * 0xffff_ffffint)
            by (nonlinear_arith)
            requires
                core_cnt <= 0xffff_ffff,
                cpu_cnt <= 0xffff_ffff,
        ;
    }
    let product: u64 = core_cnt as u64 * cpu_cnt as u64;
    if product < 256 {
        product as usize
    } else {
        256
    }
}

/// The TjMax slot of the CPU that core slot `i` belongs to, at most 127.
pub fn tjmax_slot(i: usize, core_cnt: u32) -> (k: usize)
    requires
        core_cnt > 0,
    ensures
        k == if (i as int) / (core_cnt as int) < 127 {
            (i as int) / (core_cnt as int)
        } else {
            127
        },
{
    let q = i / core_cnt as usize;
    if q < 127 {
        q
    } else {
        127
    }
}

/// Whether `z` is the first zero unit at or after `start`.
pub open spec fn is_first_zero(buf: Seq<u16>, start: int, z: int) -> bool {
    &&& 0 <= start <= z < buf.len()
    &&& buf[z] == 0
    &&& forall|k: int| start <= k < z ==> buf[k] != 0
}

/// The strings of a double-NUL-terminated list, from position `start` on:
/// each runs up to its NUL, and the list ends at an empty string or at the
/// end of the buffer (a last string without a NUL is dropped).
pub open spec fn multi_sz_from(buf: Seq<u16>, start: int) -> Seq<Seq<u16>>
    decreases buf.len() - start,
{
    if exists|z: int| is_first_zero(buf, start, z) {
        let z = choose|z: int| is_first_zero(buf, start, z);
        if z == start {
            Seq::empty()
        } else {
            seq![buf.subrange(start, z)] + multi_sz_from(buf, z + 1)
        }
    } else {
        Seq::empty()
    }
}

proof fn lemma_first_zero_unique(buf: Seq<u16>, start: int, z: int)
    requires
        is_first_zero(buf, start, z),
    ensures
        (choose|y: int| is_first_zero(buf, start, y)) == z,
{
    let y = choose|y: int| is_first_zero(buf, start, y);
    if y < z {
        assert(buf[y] != 0);
    } else if y > z {
        assert(buf[z] != 0);
    }
}

/// The strings of the double-NUL-terminated list that
/// `PdhExpandWildCardPathW` fills in.
pub fn split_multi_sz(buf: &[u16]) -> (items: Vec<Vec<u16>>)
    ensures
        items@.len() == multi_sz_from(buf@, 0).len(),
        forall|k: int| 0 <= k < items@.len() ==> (#[trigger] items@[k])@ == multi_sz_from(buf@, 0)[k],
{
    let mut items: Vec<Vec<u16>> = Vec::new();
    let mut start: usize = 0;
    let mut i: usize = 0;
    let ghost mut done: Seq<Seq<u16>> = Seq::empty();
    while i < buf.len()
        invariant
            0 <= start <= i <= buf@.len(),
            forall|k: int| start <= k < i ==> buf@[k] != 0,
            items@.len() == done.len(),
            forall|k: int| 0 <= k < items@.len() ==> (#[trigger] items@[k])@ == done[k],
            multi_sz_from(buf@, 0) == done + multi_sz_from(buf@, start as int),
        decreases buf@.len() - i,
    {
        if buf[i] == 0 {
            proof {
                assert(is_first_zero(buf@, start as int, i as int));
                lemma_first_zero_unique(buf@, start as int, i as int);
            }
            if i == start {
                assert(multi_sz_from(buf@, start as int) =~= Seq::<Seq<u16>>::empty());
                assert(done + Seq::<Seq<u16>>::empty() =~= done);
                return items;
            }
            let mut item: Vec<u16> = Vec::new();
            let mut j: usize = start;
            while j < i
                invariant
                    start <= j <= i,
                    i < buf@.len(),
                    item@ == buf@.subrange(start as int, j as int),
                decreases i - j,
            {
                item.push(buf[j]);
                j = j + 1;
                assert(item@ =~= buf@.subrange(start as int, j as int));
            }
            proof {
                let seg = buf@.subrange(start as int, i as int);
                assert(done + multi_sz_from(buf@, start as int) =~= done.push(seg)
                    + multi_sz_from(buf@, i + 1));
                done = done.push(seg);
            }
            items.push(item);
            start = i + 1;
        }
        i = i + 1;
    }
    assert forall|z: int| !is_first_zero(buf@, start as int, z) by {
        if is_first_zero(buf@, start as int, z) {
            assert(buf@[z] == 0);
        }
    }
    assert(done + Seq::<Seq<u16>>::empty() =~= done);
    items
}

/// The UTF-16 code units of one character.
pub open spec fn utf16_units(c: char) -> Seq<u16> {
    let v = c as u32;
    if v < 0x1_0000 {
        seq![v as u16]
    } else {
        seq![(0xd800 + (v - 0x1_0000) / 0x400) as u16, (0xdc00 + (v - 0x1_0000) % 0x400) as u16]
    }
}

/// The UTF-16 encoding of a character sequence.
pub open spec fn utf16(s: Seq<char>) -> Seq<u16>
    decreases s.len(),
{
    if s.len() == 0 {
        Seq::empty()
    } else {
        utf16(s.drop_last()) + utf16_units(s.last())
    }
}

/// The NUL-terminated UTF-16 form of `s`, as Win32 wide-string calls take it.
pub fn to_wide(s: &str) -> (w: Vec<u16>)
    ensures
        w@ == utf16(s@).push(0u16),
{
    let n = s.unicode_len();
    let mut w: Vec<u16> = Vec::new();
    let mut i: usize = 0;
    assert(s@.take(0) =~= Seq::<char>::empty());
    while i < n
        invariant
            n == s@.len(),
            0 <= i <= n,
            w@ == utf16(s@.take(i as int)),
        decreases n - i,
    {
        let c = s.get_char(i);
        let v = c as u32;
        proof {
            assert(s@.take(i + 1).drop_last() =~= s@.take(i as int));
            assert(s@.take(i + 1).last() == c);
            assert(v <= 0x10ffff) by {
                vstd::utf8::char_is_scalar(c);
            }
        }
        if v < 0x1_0000 {
            w.push(v as u16);
        } else {
            let u = v - 0x1_0000;
            w.push((0xd800 + u / 0x400) as u16);
            w.push((0xdc00 + u % 0x400) as u16);
        }
        assert(w@ =~= utf16(s@.take(i as int)) + utf16_units(c));
        i = i + 1;
    }
    assert(s@.take(n as int) =~= s@);
    w.push(0);
    w
}

} // verus!
