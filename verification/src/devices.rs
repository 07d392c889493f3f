//! Which connected HID interfaces are WLmouse devices, what they are called,
//! and which one to open.

use vstd::prelude::*;

use crate::consts::WL_VID;
use crate::text::{hex4, push_char, push_hex4};

verus! {

/// One HID interface as the system enumerates it.
pub struct HidEntry {
    pub vendor_id: u16,
    pub product_id: u16,
    pub usage_page: u16,
    pub usage: u16,
    pub path: String,
}

/// The name of a known product id.
pub open spec fn known_pid_name(pid: u16) -> Option<Seq<char>> {
    if pid == 0xA864 {
        Some("HUAN (wired)"@)
    } else if pid == 0xA863 {
        Some("HUAN (dongle)"@)
    } else if pid == 0xA867 {
        Some("BEAST MIAO (wired)"@)
    } else if pid == 0xA866 {
        Some("BEAST MIAO (dongle)"@)
    } else if pid == 0xA882 {
        Some("WLmouse (1K dongle)"@)
    } else if pid == 0xA873 {
        Some("STRIDER (wired)"@)
    } else if pid == 0xA872 {
        Some("STRIDER (dongle)"@)
    } else if pid == 0xA875 {
        Some("YING (wired)"@)
    } else if pid == 0xA874 {
        Some("YING (dongle)"@)
    } else if pid == 0xA879 {
        Some("SWORD X (wired)"@)
    } else if pid == 0xA878 {
        Some("SWORD X (dongle)"@)
    } else if pid == 0xA886 {
        Some("BEAST MINI (wired)"@)
    } else if pid == 0xA885 {
        Some("BEAST MINI (dongle)"@)
    } else if pid == 0xA869 {
        Some("BEAST MINI PRO (wired)"@)
    } else if pid == 0xA868 {
        Some("BEAST MINI PRO (dongle)"@)
    } else if pid == 0xA881 {
        Some("BEAST MAX (wired)"@)
    } else if pid == 0xA880 {
        Some("BEAST MAX (dongle)"@)
    } else if pid == 0xA884 {
        Some("BEAST X (wired)"@)
    } else if pid == 0xA883 {
        Some("BEAST X (dongle)"@)
    } else if pid == 0xA871 {
        Some("BEAST X PRO (wired)"@)
    } else if pid == 0xA870 {
        Some("BEAST X PRO (dongle)"@)
    } else {
        None
    }
}

/// The display name of a product id: its known name, or `Unknown (0x....)`.
pub open spec fn pid_name_text(pid: u16) -> Seq<char> {
    match known_pid_name(pid) {
        Some(name) => name,
        None => "Unknown ("@ + seq!['0', 'x'] + hex4(pid) + seq![')'],
    }
}

fn known_name(pid: u16) -> (name: Option<&'static str>)
    ensures
        match known_pid_name(pid) {
            Some(t) => name is Some && name.unwrap()@ == t,
            None => name is None,
        },
{
    match pid {
        0xA864 => Some("HUAN (wired)"),
        0xA863 => Some("HUAN (dongle)"),
        0xA867 => Some("BEAST MIAO (wired)"),
        0xA866 => Some("BEAST MIAO (dongle)"),
        0xA882 => Some("WLmouse (1K dongle)"),
        0xA873 => Some("STRIDER (wired)"),
        0xA872 => Some("STRIDER (dongle)"),
        0xA875 => Some("YING (wired)"),
        0xA874 => Some("YING (dongle)"),
        0xA879 => Some("SWORD X (wired)"),
        0xA878 => Some("SWORD X (dongle)"),
        0xA886 => Some("BEAST MINI (wired)"),
        0xA885 => Some("BEAST MINI (dongle)"),
        0xA869 => Some("BEAST MINI PRO (wired)"),
        0xA868 => Some("BEAST MINI PRO (dongle)"),
        0xA881 => Some("BEAST MAX (wired)"),
        0xA880 => Some("BEAST MAX (dongle)"),
        0xA884 => Some("BEAST X (wired)"),
        0xA883 => Some("BEAST X (dongle)"),
        0xA871 => Some("BEAST X PRO (wired)"),
        0xA870 => Some("BEAST X PRO (dongle)"),
        _ => None,
    }
}

/// The display name of a product id.
pub fn pid_name(pid: u16) -> (name: String)
    ensures
        name@ == pid_name_text(pid),
{
    match known_name(pid) {
        Some(n) => n.to_owned(),
        None => {
            let mut name = "Unknown (".to_owned();
            push_hex4(&mut name, pid);
            push_char(&mut name, ')');
            name
        },
    }
}

/// An interface through which a WLmouse device is configured: the vendor id
/// of WLmouse, usage page 0xFFFF and usage 0.
pub open spec fn is_candidate(e: HidEntry) -> bool {
    e.vendor_id == WL_VID && e.usage_page == 0xFFFF && e.usage == 0
}

/// Some candidate interface has product id `pid`.
pub open spec fn has_candidate(es: Seq<HidEntry>, pid: int) -> bool {
    exists|k: int| 0 <= k < es.len() && is_candidate(es[k]) && #[trigger] es[k].product_id == pid
}

/// `k` is the first candidate interface with its product id.
pub open spec fn is_first_candidate(es: Seq<HidEntry>, k: int) -> bool {
    &&& 0 <= k < es.len()
    &&& is_candidate(es[k])
    &&& forall|j: int|
        0 <= j < k ==> !(is_candidate(es[j]) && #[trigger] es[j].product_id == es[k].product_id)
}

/// A product id that is listed: some candidate has it, and it is not the
/// dongle (even id) of a device whose wired interface (the next id) is present too.
pub open spec fn is_listed(es: Seq<HidEntry>, pid: u16) -> bool {
    &&& has_candidate(es, pid as int)
    &&& (pid % 2 == 1 || !has_candidate(es, pid + 1))
}

/// `order` holds, sorted by product id without repeats, the product ids of the
/// candidates among the first `n` entries, each with the index of its first candidate.
spec fn order_inv(es: Seq<HidEntry>, order: Seq<(u16, usize)>, n: int) -> bool {
    &&& forall|i: int, j: int| 0 <= i < j < order.len() ==> #[trigger] order[i].0 < #[trigger] order[j].0
    &&& forall|i: int|
        0 <= i < order.len() ==> #[trigger] order[i].1 < n && is_first_candidate(es, order[i].1 as int)
            && es[order[i].1 as int].product_id == order[i].0
    &&& covers(es, order, n)
}

/// Every candidate among the first `n` entries has its product id in `order`.
spec fn covers(es: Seq<HidEntry>, order: Seq<(u16, usize)>, n: int) -> bool {
    forall|k: int| 0 <= k < n && is_candidate(es[k]) ==> #[trigger] in_order(order, es[k].product_id)
}

/// `pid` is one of the product ids in `order`.
spec fn in_order(order: Seq<(u16, usize)>, pid: u16) -> bool {
    exists|i: int| 0 <= i < order.len() && #[trigger] order[i].0 == pid
}

proof fn lemma_order_extend(es: Seq<HidEntry>, order: Seq<(u16, usize)>, k: int)
    requires
        0 <= k < es.len(),
        order_inv(es, order, k),
        is_candidate(es[k]) ==> in_order(order, es[k].product_id),
    ensures
        order_inv(es, order, k + 1),
{
    assert forall|kk: int| 0 <= kk < k + 1 && is_candidate(es[kk]) implies #[trigger] in_order(
        order,
        es[kk].product_id,
    ) by {}
}

/// The product ids of the candidate interfaces, sorted and without repeats,
/// each with the index of its first candidate.
fn first_candidates(entries: &Vec<HidEntry>) -> (order: Vec<(u16, usize)>)
    ensures
        order_inv(entries@, order@, entries@.len() as int),
{
    let mut order: Vec<(u16, usize)> = Vec::new();
    let n = entries.len();
    let mut k: usize = 0;
    while k < n
        invariant
            n == entries@.len(),
            k <= n,
            order_inv(entries@, order@, k as int),
        decreases n - k,
    {
        let e = &entries[k];
        if e.vendor_id == WL_VID && e.usage_page == 0xFFFF && e.usage == 0 {
            let pid = e.product_id;
            let mut pos: usize = 0;
            while pos < order.len() && order[pos].0 < pid
                invariant
                    pos <= order@.len(),
                    forall|i: int| 0 <= i < pos ==> #[trigger] order@[i].0 < pid,
                decreases order@.len() - pos,
            {
                pos = pos + 1;
            }
            if pos < order.len() && order[pos].0 == pid {
                proof {
                    assert(order@[pos as int].0 == pid);
                    lemma_order_extend(entries@, order@, k as int);
                }
            } else {
                let ghost old_order = order@;
                proof {
                    assert(!in_order(old_order, pid)) by {
                        if in_order(old_order, pid) {
                            let i = choose|i: int| 0 <= i < old_order.len() && #[trigger] old_order[i].0 == pid;
                            if i >= pos {
                                assert(old_order[pos as int].0 > pid);
                            }
                        }
                    }
                }
                order.insert(pos, (pid, k));
                proof {
                    let new_order = order@;
                    assert(new_order == old_order.insert(pos as int, (pid, k)));
                    assert forall|i: int, j: int| 0 <= i < j < new_order.len() implies #[trigger] new_order[i].0
                        < #[trigger] new_order[j].0 by {
                        if j < pos {
                        } else if j == pos {
                        } else if i < pos {
                            assert(new_order[j] == old_order[j - 1]);
                            assert(old_order[pos as int].0 > pid);
                        } else if i == pos {
                            assert(new_order[j] == old_order[j - 1]);
                            assert(old_order[pos as int].0 > pid);
                        } else {
                            assert(new_order[j] == old_order[j - 1]);
                            assert(new_order[i] == old_order[i - 1]);
                        }
                    }
                    assert(is_first_candidate(entries@, k as int)) by {
                        assert forall|j: int| 0 <= j < k implies !(is_candidate(entries@[j])
                            && #[trigger] entries@[j].product_id == entries@[k as int].product_id) by {
                            if is_candidate(entries@[j]) && entries@[j].product_id == pid {
                                assert(in_order(old_order, entries@[j].product_id));
                            }
                        }
                    }
                    assert forall|i: int| 0 <= i < new_order.len() implies #[trigger] new_order[i].1 < k + 1
                        && is_first_candidate(entries@, new_order[i].1 as int)
                        && entries@[new_order[i].1 as int].product_id == new_order[i].0 by {
                        if i > pos {
                            assert(new_order[i] == old_order[i - 1]);
                        }
                    }
                    assert forall|kk: int| 0 <= kk < k + 1 && is_candidate(entries@[kk]) implies #[trigger] in_order(
                        new_order,
                        entries@[kk].product_id,
                    ) by {
                        let p = entries@[kk].product_id;
                        if kk == k {
                            assert(new_order[pos as int].0 == p);
                        } else {
                            assert(in_order(old_order, p));
                            let i = choose|i: int| 0 <= i < old_order.len() && #[trigger] old_order[i].0 == p;
                            if i < pos {
                                assert(new_order[i].0 == p);
                            } else {
                                assert(new_order[i + 1] == old_order[i]);
                            }
                        }
                    }
                }
            }
        } else {
            proof {
                lemma_order_extend(entries@, order@, k as int);
            }
        }
        k = k + 1;
    }
    order
}

fn order_has(order: &Vec<(u16, usize)>, pid: u16) -> (found: bool)
    ensures
        found == in_order(order@, pid),
{
    let mut i: usize = 0;
    while i < order.len()
        invariant
            i <= order@.len(),
            forall|j: int| 0 <= j < i ==> #[trigger] order@[j].0 != pid,
        decreases order@.len() - i,
    {
        if order[i].0 == pid {
            assert(order@[i as int].0 == pid);
            return true;
        }
        i = i + 1;
    }
    false
}

proof fn lemma_order_candidates(es: Seq<HidEntry>, order: Seq<(u16, usize)>, pid: int)
    requires
        order_inv(es, order, es.len() as int),
        0 <= pid <= u16::MAX,
    ensures
        has_candidate(es, pid) <==> in_order(order, pid as u16),
{
    if has_candidate(es, pid) {
        let k = choose|k: int| 0 <= k < es.len() && is_candidate(es[k]) && #[trigger] es[k].product_id == pid;
        assert(in_order(order, es[k].product_id));
    }
    if in_order(order, pid as u16) {
        let i = choose|i: int| 0 <= i < order.len() && #[trigger] order[i].0 == pid as u16;
        let k = order[i].1 as int;
        assert(is_first_candidate(es, k));
        assert(es[k].product_id == pid);
    }
}

/// The WLmouse devices among the enumerated HID interfaces, as
/// `(name, product id, path)`: one per product id, sorted by product id, taken
/// from the first candidate interface with that id, leaving out a dongle whose
/// wired device is connected too (so a device is never listed twice).
pub fn select_devices(entries: &Vec<HidEntry>) -> (found: Vec<(String, u16, String)>)
    ensures
        forall|i: int, j: int| 0 <= i < j < found@.len() ==> #[trigger] found@[i].1 < #[trigger] found@[j].1,
        forall|i: int|
            0 <= i < found@.len() ==> {
                &&& is_listed(entries@, #[trigger] found@[i].1)
                &&& found@[i].0@ == pid_name_text(found@[i].1)
                &&& exists|k: int|
                    is_first_candidate(entries@, k) && entries@[k].product_id == found@[i].1
                        && #[trigger] entries@[k].path@ == found@[i].2@
            },
        forall|pid: u16|
            is_listed(entries@, pid) ==> exists|i: int| 0 <= i < found@.len() && #[trigger] found@[i].1 == pid,
        forall|i: int, j: int|
            0 <= i < found@.len() && 0 <= j < found@.len() && #[trigger] found@[i].1 % 2 == 0
                ==> #[trigger] found@[j].1 != found@[i].1 + 1,
{
    let order = first_candidates(entries);
    let mut found: Vec<(String, u16, String)> = Vec::new();
    let n = order.len();
    let mut t: usize = 0;
    while t < n
        invariant
            n == order@.len(),
            t <= n,
            order_inv(entries@, order@, entries@.len() as int),
            forall|i: int, j: int| 0 <= i < j < found@.len() ==> #[trigger] found@[i].1 < #[trigger] found@[j].1,
            forall|i: int, s: int|
                0 <= i < found@.len() && t <= s < n ==> #[trigger] found@[i].1 < #[trigger] order@[s].0,
            forall|i: int|
                0 <= i < found@.len() ==> {
                    &&& is_listed(entries@, #[trigger] found@[i].1)
                    &&& found@[i].0@ == pid_name_text(found@[i].1)
                    &&& exists|k: int|
                        is_first_candidate(entries@, k) && entries@[k].product_id == found@[i].1
                            && #[trigger] entries@[k].path@ == found@[i].2@
                },
            forall|s: int|
                0 <= s < t && is_listed(entries@, #[trigger] order@[s].0) ==> exists|i: int|
                    0 <= i < found@.len() && #[trigger] found@[i].1 == order@[s].0,
        decreases n - t,
    {
        let pid = order[t].0;
        let k = order[t].1;
        proof {
            lemma_order_candidates(entries@, order@, pid as int);
            if pid % 2 == 0 {
                lemma_order_candidates(entries@, order@, pid + 1);
            }
            assert(in_order(order@, pid));
        }
        let listed = pid % 2 == 1 || !order_has(&order, pid + 1);
        if listed {
            let ghost old_found = found@;
            let name = pid_name(pid);
            let path = entries[k].path.clone();
            found.push((name, pid, path));
            proof {
                assert(found@[old_found.len() as int].1 == pid);
                assert forall|i: int, s: int|
                    0 <= i < found@.len() && t + 1 <= s < n implies #[trigger] found@[i].1 < #[trigger] order@[s].0 by {
                    if i < old_found.len() {
                        assert(found@[i] == old_found[i]);
                    } else {
                        assert(order@[t as int].0 < order@[s].0);
                    }
                }
                assert forall|i: int| 0 <= i < found@.len() implies {
                    &&& is_listed(entries@, #[trigger] found@[i].1)
                    &&& found@[i].0@ == pid_name_text(found@[i].1)
                    &&& exists|k: int|
                        is_first_candidate(entries@, k) && entries@[k].product_id == found@[i].1
                            && #[trigger] entries@[k].path@ == found@[i].2@
                } by {
                    if i < old_found.len() {
                        assert(found@[i] == old_found[i]);
                    } else {
                        assert(entries@[k as int].path@ == found@[i].2@);
                    }
                }
                assert forall|s: int|
                    0 <= s < t + 1 && is_listed(entries@, #[trigger] order@[s].0) implies exists|i: int|
                    0 <= i < found@.len() && #[trigger] found@[i].1 == order@[s].0 by {
                    if s == t {
                        assert(found@[old_found.len() as int].1 == order@[s].0);
                    } else {
                        let i = choose|i: int| 0 <= i < old_found.len() && #[trigger] old_found[i].1 == order@[s].0;
                        assert(found@[i] == old_found[i]);
                    }
                }
            }
        }
        t = t + 1;
    }
    proof {
        assert forall|p: u16| is_listed(entries@, p) implies exists|i: int|
            0 <= i < found@.len() && #[trigger] found@[i].1 == p by {
            lemma_order_candidates(entries@, order@, p as int);
            let s = choose|s: int| 0 <= s < order@.len() && #[trigger] order@[s].0 == p;
            assert(is_listed(entries@, order@[s].0));
        }
        assert forall|i: int, j: int|
            0 <= i < found@.len() && 0 <= j < found@.len() && #[trigger] found@[i].1 % 2 == 0
                implies #[trigger] found@[j].1 != found@[i].1 + 1 by {
            assert(is_listed(entries@, found@[i].1));
            assert(is_listed(entries@, found@[j].1));
        }
    }
    found
}

/// Why no single device could be chosen.
#[derive(Debug, Clone, Copy, PartialEq, Eq)]
pub enum DetectError {
    /// No WLmouse device is connected.
    NoDevice,
    /// More than one WLmouse device is connected.
    MultipleDevices,
}

/// The device to open when none was named: the only one listed.
pub fn choose_device(devices: Vec<(String, u16, String)>) -> (chosen: Result<(String, u16, String), DetectError>)
    ensures
        devices@.len() == 0 ==> chosen == Err::<(String, u16, String), DetectError>(DetectError::NoDevice),
        devices@.len() == 1 ==> chosen == Ok::<(String, u16, String), DetectError>(devices@[0]),
        devices@.len() > 1 ==> chosen == Err::<(String, u16, String), DetectError>(DetectError::MultipleDevices),
{
    let mut devices = devices;
    if devices.len() == 0 {
        Err(DetectError::NoDevice)
    } else if devices.len() == 1 {
        Ok(devices.remove(0))
    } else {
        Err(DetectError::MultipleDevices)
    }
}

/// The product id of the first interface at `path`, or 0 when no interface is there.
pub fn pid_for_path(entries: &Vec<HidEntry>, path: &str) -> (pid: u16)
    ensures
        (exists|k: int|
            0 <= k < entries@.len() && #[trigger] entries@[k].path@ == path@ && pid == entries@[k].product_id
                && forall|j: int| 0 <= j < k ==> #[trigger] entries@[j].path@ != path@)
        || (pid == 0 && forall|k: int| 0 <= k < entries@.len() ==> #[trigger] entries@[k].path@ != path@),
{
    let target = path.to_owned();
    let mut k: usize = 0;
    while k < entries.len()
        invariant
            k <= entries@.len(),
            target@ == path@,
            forall|j: int| 0 <= j < k ==> #[trigger] entries@[j].path@ != path@,
        decreases entries@.len() - k,
    {
        if entries[k].path == target {
            assert(entries@[k as int].path@ == path@);
            return entries[k].product_id;
        }
        k = k + 1;
    }
    0
}

} // verus!
