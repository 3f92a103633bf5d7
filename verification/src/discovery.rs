//! The block devices that `lsblk` reports, and the choice of whole disks among them.
use vstd::prelude::*;

verus! {

/// A block device as `lsblk --json` describes it.
#[derive(Debug)]
pub struct BlockDevice {
    pub name: String,
    pub model: Option<String>,
    pub size: String,
    pub hotplug: bool,
    /// `lsblk`'s `type` column: `disk`, `part`, `loop`, `rom`...
    pub device_type: String,
    pub children: Option<Vec<BlockDevice>>,
}

/// Whether two devices hold the same text, flag and child devices.
pub open spec fn same_device(a: BlockDevice, b: BlockDevice) -> bool
    decreases a,
{
    &&& a.name@ == b.name@
    &&& a.model.deep_view() == b.model.deep_view()
    &&& a.size@ == b.size@
    &&& a.hotplug == b.hotplug
    &&& a.device_type@ == b.device_type@
    &&& match (a.children, b.children) {
        (None, None) => true,
        (Some(x), Some(y)) => x@.len() == y@.len() && forall|i: int|
            0 <= i < x@.len() ==> same_device(#[trigger] x@[i], y@[i]),
        _ => false,
    }
}

/// A copy of a device and of all the devices under it.
pub fn clone_device(d: &BlockDevice) -> (c: BlockDevice)
    ensures
        same_device(c, *d),
    decreases d,
{
    let children = match &d.children {
        None => None,
        Some(v) => {
            let mut copies: Vec<BlockDevice> = Vec::new();
            let mut i: usize = 0;
            while i < v.len()
                invariant
                    d.children == Some(*v),
                    i <= v@.len(),
                    copies@.len() == i,
                    forall|j: int| 0 <= j < i ==> same_device(#[trigger] copies@[j], v@[j]),
                decreases v@.len() - i,
            {
                proof {
                    assert(decreases_to!(*d => d.children));
                    assert(decreases_to!(d.children => d.children->0));
                    assert(decreases_to!(*v => v@));
                    assert(decreases_to!(v@ => v@[i as int]));
                    assert(decreases_to!(*d => v@[i as int]));
                }
                copies.push(clone_device(&v[i]));
                i = i + 1;
            }
            Some(copies)
        },
    };
    BlockDevice {
        name: d.name.clone(),
        model: match &d.model {
            None => None,
            Some(m) => Some(m.clone()),
        },
        size: d.size.clone(),
        hotplug: d.hotplug,
        device_type: d.device_type.clone(),
        children,
    }
}

impl Clone for BlockDevice {
    /// A copy of the device and of all the devices under it.
    fn clone(&self) -> (c: Self)
        ensures
            same_device(c, *self),
    {
        clone_device(self)
    }
}

/// The whole answer of `lsblk --json`.
#[derive(Debug)]
pub struct LsblkOutput {
    pub blockdevices: Vec<BlockDevice>,
}

/// Whether `lsblk` calls the device a whole disk.
pub open spec fn is_disk(d: BlockDevice) -> bool {
    d.device_type@ == "disk"@
}

/// The whole disks among `devices`, in their order.
pub open spec fn disks_of(devices: Seq<BlockDevice>) -> Seq<BlockDevice>
    decreases devices.len(),
{
    if devices.len() == 0 {
        seq![]
    } else {
        let rest = disks_of(devices.drop_last());
        if is_disk(devices.last()) {
            rest.push(devices.last())
        } else {
            rest
        }
    }
}

/// Keeps the physical disks of the `lsblk` answer, leaving out partitions,
/// loop devices and the like.
pub fn get_disks(lsblk: LsblkOutput) -> (disks: Vec<BlockDevice>)
    ensures
        disks@ == disks_of(lsblk.blockdevices@),
        disks@ == lsblk.blockdevices@.filter(|d: BlockDevice| d.device_type@ == "disk"@),
{
    let ghost all = lsblk.blockdevices@;
    let n = lsblk.blockdevices.len();
    let mut devices = lsblk.blockdevices;
    let disk = String::from_str("disk");
    let mut disks: Vec<BlockDevice> = Vec::new();
    let mut i: usize = 0;
    assert(all.take(0) =~= Seq::<BlockDevice>::empty());
    assert(all.skip(0) =~= all);
    while devices.len() > 0
        invariant
            i <= all.len(),
            n == all.len(),
            devices@ == all.skip(i as int),
            disks@ == disks_of(all.take(i as int)),
            disk@ == "disk"@,
        decreases devices@.len(),
    {
        let d = devices.remove(0);
        assert(d == all[i as int]);
        assert(all.take(i + 1).drop_last() =~= all.take(i as int));
        assert(all.skip(i + 1) =~= all.skip(i as int).remove(0));
        if d.device_type == disk {
            disks.push(d);
        }
        i = i + 1;
    }
    assert(all.take(i as int) =~= all);
    proof {
        lemma_disks_are_the_filter(all);
    }
    disks
}

/// `get_disks` keeps exactly the devices typed `disk`, in the order `lsblk`
/// gives them: its result is the filter of the input by that type, every
/// disk of the input is in it, and everything in it is a disk of the input.
pub proof fn lemma_disks_are_the_filter(s: Seq<BlockDevice>)
    ensures
        disks_of(s) == s.filter(|d: BlockDevice| d.device_type@ == "disk"@),
        forall|i: int|
            0 <= i < s.len() && s[i].device_type@ == "disk"@ ==> disks_of(s).contains(#[trigger] s[i]),
        forall|j: int|
            0 <= j < disks_of(s).len() ==> (#[trigger] disks_of(s)[j]).device_type@ == "disk"@
                && s.contains(disks_of(s)[j]),
        disks_of(s).len() <= s.len(),
    decreases s.len(),
{
    let pred = |d: BlockDevice| d.device_type@ == "disk"@;
    reveal(Seq::filter);
    if s.len() > 0 {
        lemma_disks_are_the_filter(s.drop_last());
    }
    assert(disks_of(s) == s.filter(pred));
    broadcast use Seq::lemma_filter_contains, Seq::lemma_filter_pred, Seq::lemma_filter_contains_rev, Seq::lemma_filter_len;
    assert forall|i: int| 0 <= i < s.len() && s[i].device_type@ == "disk"@ implies disks_of(s).contains(#[trigger] s[i]) by {
        s.lemma_filter_contains(pred, i);
    }
    assert forall|j: int| 0 <= j < disks_of(s).len() implies (#[trigger] disks_of(s)[j]).device_type@ == "disk"@
        && s.contains(disks_of(s)[j]) by {
        s.lemma_filter_pred(pred, j);
        assert(s.filter(pred).contains(s.filter(pred)[j]));
        s.lemma_filter_contains_rev(pred, s.filter(pred)[j]);
    }
    s.lemma_filter_len(pred);
}

} // verus!
