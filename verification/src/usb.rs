//! USB storage devices: what the library knows of one, how it is read from
//! the kernel's sysfs and mount table, and how a list of them is shown.
use vstd::prelude::*;
use crate::text::{
    chars_of, contains, contains_in, occurs_at, decimal, find_line_feed, first_two_words, lemma_lines_step,
    lines, parse_u64, parse_u64_range, push_decimal, starts_with, string_of, strip_cr, trim,
    trim_range, trim_string, words,
};
use crate::units::{format_size, human_size};

verus! {

/// The mount-table entry of a line that names a partition of the device:
/// its first two whitespace-separated fields (device and mount point) when
/// the line has at least two and the first contains the device's name.
pub open spec fn mount_entry(line: Seq<char>, name: Seq<char>) -> Option<(Seq<char>, Seq<char>)> {
    let w = words(line);
    if w.len() >= 2 && contains(w[0], name) {
        Some((w[0], w[1]))
    } else {
        None
    }
}

/// The mount-table entries of the lines `ls` for the device `name`, in order.
pub open spec fn mount_entries(ls: Seq<Seq<char>>, name: Seq<char>) -> Seq<(Seq<char>, Seq<char>)>
    decreases ls.len(),
{
    if ls.len() == 0 {
        seq![]
    } else {
        let rest = mount_entries(ls.drop_first(), name);
        match mount_entry(ls[0], name) {
            Some(e) => seq![e] + rest,
            None => rest,
        }
    }
}

/// The partitions of device `name` that the mount table `mounts` (the text
/// of /proc/mounts) lists, as (partition, mount point) pairs.
pub open spec fn partitions_in(mounts: Seq<char>, name: Seq<char>) -> Seq<(Seq<char>, Seq<char>)> {
    mount_entries(lines(mounts), name)
}

/// The mount points of device `name` in the mount table `mounts`.
pub open spec fn mount_points_in(mounts: Seq<char>, name: Seq<char>) -> Seq<Seq<char>> {
    partitions_in(mounts, name).map_values(|e: (Seq<char>, Seq<char>)| e.1)
}

/// The mounted partitions of a device, read from the text of the mount
/// table: each line whose first field contains `device_name` gives the pair
/// of its first field (the partition) and its second (the mount point).
pub fn mounted_partitions(mounts: &str, device_name: &str) -> (r: Vec<(String, String)>)
    ensures
        r.deep_view() == partitions_in(mounts@, device_name@),
{
    let v = chars_of(mounts);
    let pat = chars_of(device_name);
    let mut res: Vec<(String, String)> = Vec::new();
    let mut start: usize = 0;
    assert(v@.skip(0) =~= v@);
    while start < v.len()
        invariant
            start <= v.len(),
            v@ == mounts@,
            pat@ == device_name@,
            partitions_in(mounts@, device_name@) == res.deep_view() + mount_entries(
                lines(v@.skip(start as int)),
                pat@,
            ),
        decreases v.len() - start,
    {
        let e = find_line_feed(&v, start);
        proof {
            lemma_lines_step(v@, start as int, e as int);
        }
        let line_end = if e < v.len() && e > start && v[e - 1] == '\r' {
            e - 1
        } else {
            e
        };
        let ghost line = v@.subrange(start as int, line_end as int);
        let ghost rest = if e < v.len() {
            lines(v@.skip(e + 1))
        } else {
            Seq::<Seq<char>>::empty()
        };
        proof {
            if e < v.len() {
                assert(strip_cr(v@.subrange(start as int, e as int)) =~= line);
            }
            assert(lines(v@.skip(start as int)) =~= seq![line] + rest);
            assert((seq![line] + rest).drop_first() =~= rest);
        }
        let ghost before = res.deep_view();
        match first_two_words(&v, start, line_end) {
            Some((a, b, c, d)) => {
                let found = contains_in(&v, a, b, &pat);
                if found {
                    let partition = string_of(&v, a, b);
                    let mount_point = string_of(&v, c, d);
                    res.push((partition, mount_point));
                    assert(res.deep_view() =~= before.push((v@.subrange(a as int, b as int), v@.subrange(c as int, d as int))));
                }
            },
            None => {},
        }
        proof {
            let tail = mount_entries(rest, pat@);
            assert(mount_entries(seq![line] + rest, pat@) == match mount_entry(line, pat@) {
                Some(x) => seq![x] + tail,
                None => tail,
            });
            match mount_entry(line, pat@) {
                Some(x) => {
                    assert(before + (seq![x] + tail) =~= res.deep_view() + tail);
                },
                None => {},
            }
        }
        if e == v.len() {
            start = v.len();
            assert(v@.skip(start as int) =~= Seq::<char>::empty());
        } else {
            start = e + 1;
        }
    }
    res
}

/// Whether device `name` has a partition in the mount table `mounts`, and
/// the mount points of its partitions in table order.
pub fn check_mount_status(mounts: &str, device_name: &str) -> (r: (bool, Vec<String>))
    ensures
        r.1.deep_view() == mount_points_in(mounts@, device_name@),
        r.0 == (r.1.len() > 0),
{
    let parts = mounted_partitions(mounts, device_name);
    let mut points: Vec<String> = Vec::new();
    let mut i: usize = 0;
    while i < parts.len()
        invariant
            i <= parts.len(),
            parts.deep_view() == partitions_in(mounts@, device_name@),
            points.deep_view() =~= parts.deep_view().take(i as int).map_values(
                |e: (Seq<char>, Seq<char>)| e.1,
            ),
        decreases parts.len() - i,
    {
        let point = parts[i].1.clone();
        let ghost before = points.deep_view();
        points.push(point);
        assert(parts.deep_view()[i as int] == (parts@[i as int].0@, parts@[i as int].1@));
        assert(points.deep_view() =~= before.push(parts@[i as int].1@));
        assert(parts.deep_view().take((i + 1) as int).map_values(|e: (Seq<char>, Seq<char>)| e.1)
            =~= parts.deep_view().take(i as int).map_values(|e: (Seq<char>, Seq<char>)| e.1).push(
            parts@[i as int].1@,
        ));
        i = i + 1;
    }
    assert(parts.deep_view().take(parts.len() as int) =~= parts.deep_view());
    (points.len() > 0, points)
}

/// Law: a device's mount points are the mount points of its mounted
/// partitions, in the same order (so it counts as mounted exactly when it has
/// a mounted partition).
pub proof fn lemma_mount_points_follow_partitions(mounts: Seq<char>, name: Seq<char>)
    ensures
        mount_points_in(mounts, name).len() == partitions_in(mounts, name).len(),
        forall|i: int|
            0 <= i < partitions_in(mounts, name).len() ==> #[trigger] mount_points_in(mounts, name)[i]
                == partitions_in(mounts, name)[i].1,
{
}

/// Every entry found for a device names a partition whose path contains the
/// device's name.
proof fn lemma_entries_contain_name(ls: Seq<Seq<char>>, name: Seq<char>)
    ensures
        forall|i: int|
            0 <= i < mount_entries(ls, name).len() ==> contains(
                #[trigger] mount_entries(ls, name)[i].0,
                name,
            ),
    decreases ls.len(),
{
    if ls.len() > 0 {
        lemma_entries_contain_name(ls.drop_first(), name);
        let rest = mount_entries(ls.drop_first(), name);
        match mount_entry(ls[0], name) {
            Some(e) => {
                assert forall|i: int| 0 <= i < mount_entries(ls, name).len() implies contains(
                    #[trigger] mount_entries(ls, name)[i].0,
                    name,
                ) by {
                    if i > 0 {
                        assert(mount_entries(ls, name)[i] == rest[i - 1]);
                    }
                }
            },
            None => {},
        }
    }
}

/// Law: every partition found for a device contains the device's name.
pub proof fn lemma_partitions_contain_name(mounts: Seq<char>, name: Seq<char>)
    ensures
        forall|i: int|
            0 <= i < partitions_in(mounts, name).len() ==> contains(
                #[trigger] partitions_in(mounts, name)[i].0,
                name,
            ),
{
    lemma_entries_contain_name(lines(mounts), name);
}

/// Every line among `ls` with at least two fields, the first of which
/// contains `name`, gives an entry.
proof fn lemma_line_gives_entry(ls: Seq<Seq<char>>, name: Seq<char>, i: int)
    requires
        0 <= i < ls.len(),
        words(ls[i]).len() >= 2,
        contains(words(ls[i])[0], name),
    ensures
        mount_entries(ls, name).contains((words(ls[i])[0], words(ls[i])[1])),
    decreases ls.len(),
{
    let e = (words(ls[i])[0], words(ls[i])[1]);
    let rest = mount_entries(ls.drop_first(), name);
    if i == 0 {
        assert(mount_entry(ls[0], name) == Some(e));
        assert(mount_entries(ls, name)[0] == e);
    } else {
        assert(ls.drop_first()[i - 1] == ls[i]);
        lemma_line_gives_entry(ls.drop_first(), name, i - 1);
        let k = choose|k: int| 0 <= k < rest.len() && rest[k] == e;
        match mount_entry(ls[0], name) {
            Some(x) => {
                assert(mount_entries(ls, name)[k + 1] == e);
            },
            None => {
                assert(mount_entries(ls, name)[k] == e);
            },
        }
    }
}

/// Every entry comes from a line among `ls` with at least two fields, the
/// first of which contains `name`: the entry is those two fields.
proof fn lemma_entry_from_line(ls: Seq<Seq<char>>, name: Seq<char>, k: int)
    requires
        0 <= k < mount_entries(ls, name).len(),
    ensures
        exists|i: int|
            0 <= i < ls.len() && words(#[trigger] ls[i]).len() >= 2 && contains(words(ls[i])[0], name)
                && mount_entries(ls, name)[k] == (words(ls[i])[0], words(ls[i])[1]),
    decreases ls.len(),
{
    let rest = mount_entries(ls.drop_first(), name);
    match mount_entry(ls[0], name) {
        Some(x) => {
            if k == 0 {
                assert(words(ls[0]).len() >= 2);
            } else {
                assert(mount_entries(ls, name)[k] == rest[k - 1]);
                lemma_entry_from_line(ls.drop_first(), name, k - 1);
                let i = choose|i: int|
                    0 <= i < ls.drop_first().len() && words(#[trigger] ls.drop_first()[i]).len() >= 2
                        && contains(words(ls.drop_first()[i])[0], name) && rest[k - 1] == (
                        words(ls.drop_first()[i])[0],
                        words(ls.drop_first()[i])[1],
                    );
                assert(ls[i + 1] == ls.drop_first()[i]);
            }
        },
        None => {
            lemma_entry_from_line(ls.drop_first(), name, k);
            let i = choose|i: int|
                0 <= i < ls.drop_first().len() && words(#[trigger] ls.drop_first()[i]).len() >= 2
                    && contains(words(ls.drop_first()[i])[0], name) && rest[k] == (
                    words(ls.drop_first()[i])[0],
                    words(ls.drop_first()[i])[1],
                );
            assert(ls[i + 1] == ls.drop_first()[i]);
        },
    }
}

/// `e` is the first two fields of a line of the mount table `mounts` that
/// has at least two fields, the first of which contains `name`.
pub open spec fn is_matching_line_entry(mounts: Seq<char>, name: Seq<char>, e: (Seq<char>, Seq<char>)) -> bool {
    exists|i: int|
        0 <= i < lines(mounts).len() && words(#[trigger] lines(mounts)[i]).len() >= 2 && contains(
            words(lines(mounts)[i])[0],
            name,
        ) && e == (words(lines(mounts)[i])[0], words(lines(mounts)[i])[1])
}

/// Law: the mounted partitions of a device are exactly the mount-table lines
/// with at least two fields whose first field (the mounted device) contains
/// the device's name, taken as (first field, second field): every such line
/// gives its pair, whatever else the first field holds (a partition such as
/// "/dev/sdb1", or the whole device "/dev/sdb"), and nothing else is given.
pub proof fn lemma_mounted_partitions_are_matching_lines(mounts: Seq<char>, name: Seq<char>)
    ensures
        forall|i: int|
            #![trigger lines(mounts)[i]]
            0 <= i < lines(mounts).len() && words(lines(mounts)[i]).len() >= 2 && contains(
                words(lines(mounts)[i])[0],
                name,
            ) ==> partitions_in(mounts, name).contains(
                (words(lines(mounts)[i])[0], words(lines(mounts)[i])[1]),
            ),
        forall|k: int|
            0 <= k < partitions_in(mounts, name).len() ==> is_matching_line_entry(
                mounts,
                name,
                #[trigger] partitions_in(mounts, name)[k],
            ),
{
    let ls = lines(mounts);
    assert forall|i: int|
        #![trigger lines(mounts)[i]]
        0 <= i < ls.len() && words(ls[i]).len() >= 2 && contains(words(ls[i])[0], name) implies partitions_in(
        mounts,
        name,
    ).contains((words(ls[i])[0], words(ls[i])[1])) by {
        lemma_line_gives_entry(ls, name, i);
    }
    assert forall|k: int| 0 <= k < partitions_in(mounts, name).len() implies is_matching_line_entry(
        mounts,
        name,
        #[trigger] partitions_in(mounts, name)[k],
    ) by {
        lemma_entry_from_line(ls, name, k);
    }
}

/// Law: a device mounted as a whole (a mount-table line whose first field
/// is "/dev/" followed by the device's name, with a mount point after it)
/// is mounted there: that pair is among its partitions, and the mount point
/// among its mount points.
pub proof fn lemma_whole_device_mount_counts(mounts: Seq<char>, name: Seq<char>, i: int)
    requires
        0 <= i < lines(mounts).len(),
        words(lines(mounts)[i]).len() >= 2,
        words(lines(mounts)[i])[0] == "/dev/"@ + name,
    ensures
        partitions_in(mounts, name).contains(("/dev/"@ + name, words(lines(mounts)[i])[1])),
        mount_points_in(mounts, name).contains(words(lines(mounts)[i])[1]),
{
    let w0 = "/dev/"@ + name;
    assert(w0.subrange(w0.len() - name.len(), w0.len() as int) =~= name);
    assert(occurs_at(w0, name, w0.len() - name.len()));
    lemma_mounted_partitions_are_matching_lines(mounts, name);
    let e = (w0, words(lines(mounts)[i])[1]);
    assert(partitions_in(mounts, name).contains(e));
    let k = choose|k: int| 0 <= k < partitions_in(mounts, name).len() && partitions_in(mounts, name)[k] == e;
    assert(mount_points_in(mounts, name)[k] == e.1);
}

/// A USB storage device.
#[derive(Debug, Clone)]
pub struct UsbDevice {
    /// Device path (e.g., /dev/sdb)
    pub path: String,
    /// Device name (e.g., sdb)
    pub name: String,
    /// Total size in bytes
    pub size: u64,
    /// Vendor name
    pub vendor: String,
    /// Model name
    pub model: String,
    /// Whether the device is currently mounted
    pub is_mounted: bool,
    /// Mount points if mounted
    pub mount_points: Vec<String>,
    /// Device serial number (if available)
    pub serial: Option<String>,
}

/// "vendor model (size)", vendor and model trimmed.
pub open spec fn device_description(d: UsbDevice) -> Seq<char> {
    trim(d.vendor@) + seq![' '] + trim(d.model@) + seq![' ', '('] + human_size(d.size as nat) + seq![
        ')',
    ]
}

impl UsbDevice {
    /// Format size in human-readable format
    pub fn size_human(&self) -> (s: String)
        ensures
            s@ == human_size(self.size as nat),
    {
        format_size(self.size)
    }

    /// Get a short description of the device
    pub fn description(&self) -> (s: String)
        ensures
            s@ == device_description(*self),
    {
        let mut s = trim_string(self.vendor.as_str());
        s.push(' ');
        let model = trim_string(self.model.as_str());
        s.append(model.as_str());
        s.push(' ');
        s.push('(');
        let size = self.size_human();
        s.append(size.as_str());
        s.push(')');
        assert(s@ =~= device_description(*self));
        s
    }
}

/// Block devices that are never USB sticks: loop, RAM and device-mapper devices.
pub open spec fn is_virtual_block_device(name: Seq<char>) -> bool {
    ||| starts_with(name, seq!['l', 'o', 'o', 'p'])
    ||| starts_with(name, seq!['r', 'a', 'm'])
    ||| starts_with(name, seq!['d', 'm', '-'])
}

/// Whether `v` begins with the characters of `prefix`.
fn has_prefix(v: &Vec<char>, prefix: &Vec<char>) -> (b: bool)
    ensures
        b == starts_with(v@, prefix@),
{
    if prefix.len() > v.len() {
        return false;
    }
    let mut i: usize = 0;
    while i < prefix.len()
        invariant
            i <= prefix.len() <= v.len(),
            forall|k: int| 0 <= k < i ==> v@[k] == prefix@[k],
        decreases prefix.len() - i,
    {
        if v[i] != prefix[i] {
            assert(v@.take(prefix.len() as int)[i as int] != prefix@[i as int]);
            return false;
        }
        i = i + 1;
    }
    assert(v@.take(prefix.len() as int) =~= prefix@);
    true
}

/// Whether an entry of /sys/block is looked at when listing USB devices:
/// loop, RAM and device-mapper devices are skipped.
pub fn is_listed_block_device(name: &str) -> (b: bool)
    ensures
        b == !is_virtual_block_device(name@),
{
    let v = chars_of(name);
    let mut p: Vec<char> = Vec::new();
    p.push('l');
    p.push('o');
    p.push('o');
    p.push('p');
    assert(p@ =~= seq!['l', 'o', 'o', 'p']);
    if has_prefix(&v, &p) {
        return false;
    }
    let mut p: Vec<char> = Vec::new();
    p.push('r');
    p.push('a');
    p.push('m');
    assert(p@ =~= seq!['r', 'a', 'm']);
    if has_prefix(&v, &p) {
        return false;
    }
    let mut p: Vec<char> = Vec::new();
    p.push('d');
    p.push('m');
    p.push('-');
    assert(p@ =~= seq!['d', 'm', '-']);
    !has_prefix(&v, &p)
}

/// Why a block device was not taken as a USB device.
#[derive(Debug, Clone, Copy, PartialEq, Eq)]
pub enum DetectError {
    /// Its `removable` attribute is not "1".
    NotRemovable,
    /// Its `size` attribute could not be read.
    SizeUnreadable,
    /// Its `size` attribute is not a number of sectors.
    SizeNotANumber,
    /// The mount table could not be read.
    MountsUnreadable,
}

/// The text of an attribute, if it was read.
pub open spec fn text_of(value: Option<&str>) -> Option<Seq<char>> {
    match value {
        Some(v) => Some(v@),
        None => None,
    }
}

/// The `removable` attribute as compared: trimmed, empty when unreadable.
pub open spec fn removable_attribute(removable: Option<Seq<char>>) -> Seq<char> {
    match removable {
        Some(r) => trim(r),
        None => Seq::<char>::empty(),
    }
}

/// Whether a block device is removable: its `removable` attribute, trimmed,
/// is "1" (an unreadable attribute counts as empty).
pub fn is_removable_attribute(removable: Option<&str>) -> (b: bool)
    ensures
        b == (removable_attribute(text_of(removable)) == seq!['1']),
{
    match removable {
        Some(text) => {
            let t = trim_string(text);
            let v = chars_of(t.as_str());
            if v.len() == 1 && v[0] == '1' {
                assert(v@ =~= seq!['1']);
                true
            } else {
                proof {
                    if trim(text@) == seq!['1'] {
                        assert(trim(text@)[0] == '1');
                    }
                }
                false
            }
        },
        None => {
            assert(Seq::<char>::empty().len() != seq!['1'].len());
            false
        },
    }
}

impl DetectError {
    /// The message of the error.
    pub fn message(&self) -> (m: String)
        ensures
            m@ == match *self {
                DetectError::NotRemovable => "Not a removable device"@,
                DetectError::SizeUnreadable => "Failed to read device size"@,
                DetectError::SizeNotANumber => "Failed to parse device size"@,
                DetectError::MountsUnreadable => "Failed to read /proc/mounts"@,
            },
    {
        match self {
            DetectError::NotRemovable => String::from_str("Not a removable device"),
            DetectError::SizeUnreadable => String::from_str("Failed to read device size"),
            DetectError::SizeNotANumber => String::from_str("Failed to parse device size"),
            DetectError::MountsUnreadable => String::from_str("Failed to read /proc/mounts"),
        }
    }
}

/// A sysfs attribute as read: trimmed, or `default` when it could not be read.
pub open spec fn attribute_or(value: Option<Seq<char>>, default: Seq<char>) -> Seq<char> {
    match value {
        Some(v) => trim(v),
        None => default,
    }
}

/// The number of 512-byte sectors in a sysfs `size` attribute.
pub open spec fn sector_count(text: Seq<char>) -> Option<nat> {
    parse_u64(trim(text))
}

/// Parses the sector count of a sysfs `size` attribute: the trimmed text as
/// a decimal `u64`.
pub fn parse_sector_count(text: &str) -> (r: Option<u64>)
    ensures
        match sector_count(text@) {
            Some(n) => r == Some(n as u64),
            None => r is None,
        },
{
    let v = chars_of(text);
    let (i, j) = trim_range(&v, 0, v.len());
    assert(v@.subrange(0, v.len() as int) =~= v@);
    parse_u64_range(&v, i, j)
}

/// The device that the sysfs attributes of block device `name` describe,
/// where each argument is the text that was read, or `None` where reading
/// failed. The device must be removable (attribute "1" after trimming; an
/// unreadable attribute counts as empty), its size readable and a number of
/// 512-byte sectors, and the mount table readable. Vendor and model fall back
/// to "Unknown" and "Device"; the serial is optional.
pub open spec fn device_from_sysfs(
    name: Seq<char>,
    removable: Option<Seq<char>>,
    size: Option<Seq<char>>,
    vendor: Option<Seq<char>>,
    model: Option<Seq<char>>,
    serial: Option<Seq<char>>,
    mounts: Option<Seq<char>>,
    found: Result<UsbDevice, DetectError>,
) -> bool {
    if removable_attribute(removable) != seq!['1'] {
        found == Err::<UsbDevice, DetectError>(DetectError::NotRemovable)
    } else if size is None {
        found == Err::<UsbDevice, DetectError>(DetectError::SizeUnreadable)
    } else if sector_count(size.unwrap()) is None {
        found == Err::<UsbDevice, DetectError>(DetectError::SizeNotANumber)
    } else if mounts is None {
        found == Err::<UsbDevice, DetectError>(DetectError::MountsUnreadable)
    } else {
        &&& found is Ok
        &&& found->Ok_0.path@ == seq!['/', 'd', 'e', 'v', '/'] + name
        &&& found->Ok_0.name@ == name
        &&& found->Ok_0.size == sector_count(size.unwrap()).unwrap() * 512
        &&& found->Ok_0.vendor@ == attribute_or(vendor, seq!['U', 'n', 'k', 'n', 'o', 'w', 'n'])
        &&& found->Ok_0.model@ == attribute_or(model, seq!['D', 'e', 'v', 'i', 'c', 'e'])
        &&& found->Ok_0.serial.deep_view() == match serial {
            Some(t) => Some(trim(t)),
            None => None,
        }
        &&& found->Ok_0.mount_points.deep_view() == mount_points_in(mounts.unwrap(), name)
        &&& found->Ok_0.is_mounted == (found->Ok_0.mount_points.len() > 0)
    }
}

/// Builds the description of block device `name` from its sysfs attributes
/// and the mount table (see `device_from_sysfs`).
pub fn check_if_usb_device(
    name: &str,
    removable: Option<&str>,
    size: Option<&str>,
    vendor: Option<&str>,
    model: Option<&str>,
    serial: Option<&str>,
    mounts: Option<&str>,
) -> (r: Result<UsbDevice, DetectError>)
    requires
        removable_attribute(text_of(removable)) == seq!['1'] ==> (size matches Some(t) ==> (
        sector_count(t@) matches Some(n) ==> n * 512 <= u64::MAX)),
    ensures
        device_from_sysfs(
            name@,
            text_of(removable),
            text_of(size),
            text_of(vendor),
            text_of(model),
            text_of(serial),
            text_of(mounts),
            r,
        ),
{
    let is_removable = is_removable_attribute(removable);
    if !is_removable {
        return Err(DetectError::NotRemovable);
    }
    let size_text = match size {
        Some(t) => t,
        None => {
            return Err(DetectError::SizeUnreadable);
        },
    };
    let sectors = match parse_sector_count(size_text) {
        Some(n) => n,
        None => {
            return Err(DetectError::SizeNotANumber);
        },
    };
    let mounts_text = match mounts {
        Some(m) => m,
        None => {
            return Err(DetectError::MountsUnreadable);
        },
    };
    let vendor_text = match vendor {
        Some(v) => trim_string(v),
        None => String::from_str("Unknown"),
    };
    let model_text = match model {
        Some(m) => trim_string(m),
        None => String::from_str("Device"),
    };
    let serial = match serial {
        Some(t) => Some(trim_string(t)),
        None => None,
    };
    let (is_mounted, mount_points) = check_mount_status(mounts_text, name);
    let mut path = String::from_str("/dev/");
    path.append(name);
    let name_owned = String::from_str(name);
    proof {
        reveal_strlit("/dev/");
        reveal_strlit("Unknown");
        reveal_strlit("Device");
    }
    let device = UsbDevice {
        path,
        name: name_owned,
        size: sectors * 512,
        vendor: vendor_text,
        model: model_text,
        is_mounted,
        mount_points,
        serial,
    };
    proof {
        assert(device.path@ =~= seq!['/', 'd', 'e', 'v', '/'] + name@);
        assert(device.vendor@ =~= attribute_or(text_of(vendor), seq!['U', 'n', 'k', 'n', 'o', 'w', 'n']));
        assert(device.model@ =~= attribute_or(text_of(model), seq!['D', 'e', 'v', 'i', 'c', 'e']));
    }
    Ok(device)
}

/// What is shown when no USB device is found.
pub open spec fn no_devices_text() -> Seq<char> {
    "❌ No USB devices found\n"@ + "\n💡 Tips:\n"@ + "   • Make sure your USB device is connected\n"@ + "   • Try running with sudo if you don't see expected devices\n"@
}

/// The line of mount point `i` (the last one drawn as the end of the tree).
pub open spec fn mount_point_line(points: Seq<Seq<char>>, i: int) -> Seq<char> {
    (if i == points.len() - 1 {
        "    └─ Mount["@
    } else {
        "    ├─ Mount["@
    }) + decimal(i as nat) + "]: "@ + points[i] + "\n"@
}

/// The lines of the first `n` mount points.
pub open spec fn mount_point_lines(points: Seq<Seq<char>>, n: nat) -> Seq<char>
    decreases n,
{
    if n == 0 {
        seq![]
    } else {
        mount_point_lines(points, (n - 1) as nat) + mount_point_line(points, n - 1)
    }
}

/// The name, vendor, model and size lines of a device in verbose mode.
pub open spec fn identity_details(d: UsbDevice) -> Seq<char> {
    "    ├─ Name:     "@ + d.name@ + "\n"@ + "    ├─ Vendor:   "@ + trim(d.vendor@) + "\n"@
        + "    ├─ Model:    "@ + trim(d.model@) + "\n"@ + "    ├─ Size:     "@ + human_size(
        d.size as nat,
    ) + " ("@ + decimal(d.size as nat) + " bytes)\n"@
}

/// The serial line of a device in verbose mode, when it has a serial.
pub open spec fn serial_detail(serial: Option<String>) -> Seq<char> {
    match serial {
        Some(s) => "    ├─ Serial:   "@ + s@ + "\n"@,
        None => seq![],
    }
}

/// The mount lines of a device in verbose mode.
pub open spec fn mount_details(d: UsbDevice) -> Seq<char> {
    if d.is_mounted {
        "    ├─ Mounted:  Yes\n"@ + mount_point_lines(d.mount_points.deep_view(), d.mount_points.len() as nat)
    } else {
        "    └─ Mounted:  No\n"@
    }
}

/// The details of a device shown in verbose mode.
pub open spec fn device_details(d: UsbDevice) -> Seq<char> {
    identity_details(d) + serial_detail(d.serial) + mount_details(d) + "\n"@
}

/// The entry of one device in the list.
pub open spec fn device_entry(d: UsbDevice, verbose: bool) -> Seq<char> {
    "  "@ + d.path@ + " - "@ + device_description(d) + (if d.is_mounted {
        " ⚠️  [MOUNTED]"@
    } else {
        seq![]
    }) + "\n"@ + (if verbose {
        device_details(d)
    } else {
        seq![]
    })
}

/// The entries of all devices, in order.
pub open spec fn device_entries(ds: Seq<UsbDevice>, verbose: bool) -> Seq<char>
    decreases ds.len(),
{
    if ds.len() == 0 {
        seq![]
    } else {
        device_entries(ds.drop_last(), verbose) + device_entry(ds.last(), verbose)
    }
}

/// How many of the devices are mounted.
pub open spec fn mounted_count(ds: Seq<UsbDevice>) -> nat
    decreases ds.len(),
{
    if ds.len() == 0 {
        0
    } else {
        mounted_count(ds.drop_last()) + if ds.last().is_mounted {
            1nat
        } else {
            0nat
        }
    }
}

/// Law: the number of mounted devices is the number of devices whose
/// `is_mounted` holds, and it is zero exactly when none is mounted.
pub proof fn lemma_mounted_count_counts_mounted_devices(ds: Seq<UsbDevice>)
    ensures
        mounted_count(ds) == ds.filter(|d: UsbDevice| d.is_mounted).len(),
        mounted_count(ds) == 0 <==> forall|i: int| 0 <= i < ds.len() ==> !(#[trigger] ds[i]).is_mounted,
    decreases ds.len(),
{
    reveal(Seq::filter);
    if ds.len() > 0 {
        lemma_mounted_count_counts_mounted_devices(ds.drop_last());
        if forall|i: int| 0 <= i < ds.len() ==> !(#[trigger] ds[i]).is_mounted {
            assert(!ds[ds.len() - 1].is_mounted);
            assert forall|i: int| 0 <= i < ds.drop_last().len() implies !(
            #[trigger] ds.drop_last()[i]).is_mounted by {
                assert(ds.drop_last()[i] == ds[i]);
            }
        } else {
            let j = choose|j: int| 0 <= j < ds.len() && (#[trigger] ds[j]).is_mounted;
            if j < ds.len() - 1 {
                assert(ds.drop_last()[j] == ds[j]);
            }
        }
    }
}

/// Law: a listing of devices none of which is mounted ends with the hint,
/// without the warning about mounted devices; when some are mounted, the
/// warning gives the number of mounted devices.
pub proof fn lemma_mounted_warning_counts_mounted_devices(ds: Seq<UsbDevice>, verbose: bool)
    requires
        ds.len() > 0,
    ensures
        (forall|i: int| 0 <= i < ds.len() ==> !(#[trigger] ds[i]).is_mounted) ==> device_list_text(
            ds,
            verbose,
        ) == "📀 Available USB devices:\n\n"@ + device_entries(ds, verbose)
            + "\n💡 Use 'flicker write --iso <file> --device <device>' to write an ISO\n"@,
        (exists|i: int| 0 <= i < ds.len() && (#[trigger] ds[i]).is_mounted) ==> device_list_text(
            ds,
            verbose,
        ) == "📀 Available USB devices:\n\n"@ + device_entries(ds, verbose)
            + "\n💡 Use 'flicker write --iso <file> --device <device>' to write an ISO\n"@ + "\n⚠️  "@
            + decimal(ds.filter(|d: UsbDevice| d.is_mounted).len())
            + " device(s) are currently mounted\n"@
            + "   Flicker will automatically unmount them before writing\n"@,
{
    lemma_mounted_count_counts_mounted_devices(ds);
    let head = "📀 Available USB devices:\n\n"@ + device_entries(ds, verbose)
        + "\n💡 Use 'flicker write --iso <file> --device <device>' to write an ISO\n"@;
    assert(head + Seq::<char>::empty() =~= head);
}

/// The listing of USB devices, as shown by the `list` command.
pub open spec fn device_list_text(ds: Seq<UsbDevice>, verbose: bool) -> Seq<char> {
    if ds.len() == 0 {
        no_devices_text()
    } else {
        "📀 Available USB devices:\n\n"@ + device_entries(ds, verbose) + "\n💡 Use 'flicker write --iso <file> --device <device>' to write an ISO\n"@ + (if mounted_count(ds) > 0 {
            "\n⚠️  "@ + decimal(mounted_count(ds)) + " device(s) are currently mounted\n"@ + "   Flicker will automatically unmount them before writing\n"@
        } else {
            seq![]
        })
    }
}

/// Appends the lines of the mount points of a mounted device.
fn push_mount_point_lines(out: &mut String, points: &Vec<String>)
    ensures
        final(out)@ == old(out)@ + mount_point_lines(points.deep_view(), points.len() as nat),
{
    let mut i: usize = 0;
    let ghost start = out@;
    while i < points.len()
        invariant
            i <= points.len(),
            out@ == start + mount_point_lines(points.deep_view(), i as nat),
        decreases points.len() - i,
    {
        let ghost before = out@;
        if i == points.len() - 1 {
            out.append("    └─ Mount[");
        } else {
            out.append("    ├─ Mount[");
        }
        push_decimal(out, i as u128);
        out.append("]: ");
        out.append(points[i].as_str());
        out.append("\n");
        assert(points.deep_view()[i as int] == points@[i as int]@);
        assert(out@ =~= before + mount_point_line(points.deep_view(), i as int));
        i = i + 1;
    }
}

/// Appends the name, vendor, model and size lines of a device.
fn push_identity_details(out: &mut String, d: &UsbDevice)
    ensures
        final(out)@ == old(out)@ + identity_details(*d),
{
    let ghost start = out@;
    out.append("    ├─ Name:     ");
    out.append(d.name.as_str());
    out.append("\n");
    out.append("    ├─ Vendor:   ");
    let vendor = trim_string(d.vendor.as_str());
    out.append(vendor.as_str());
    out.append("\n");
    out.append("    ├─ Model:    ");
    let model = trim_string(d.model.as_str());
    out.append(model.as_str());
    out.append("\n");
    let ghost mid = out@;
    out.append("    ├─ Size:     ");
    let size = d.size_human();
    out.append(size.as_str());
    out.append(" (");
    push_decimal(out, d.size as u128);
    out.append(" bytes)\n");
    assert(out@ =~= start + identity_details(*d));
}

/// Appends the details of one device shown in verbose mode.
fn push_device_details(out: &mut String, d: &UsbDevice)
    ensures
        final(out)@ == old(out)@ + device_details(*d),
{
    let ghost start = out@;
    push_identity_details(out, d);
    let ghost a = out@;
    match &d.serial {
        Some(s) => {
            out.append("    ├─ Serial:   ");
            out.append(s.as_str());
            out.append("\n");
        },
        None => {},
    }
    assert(out@ =~= a + serial_detail(d.serial));
    let ghost b = out@;
    if d.is_mounted {
        out.append("    ├─ Mounted:  Yes\n");
        push_mount_point_lines(out, &d.mount_points);
    } else {
        out.append("    └─ Mounted:  No\n");
    }
    assert(out@ =~= b + mount_details(*d));
    out.append("\n");
    assert(out@ =~= start + device_details(*d));
}

/// Appends the entry of one device.
fn push_device_entry(out: &mut String, d: &UsbDevice, verbose: bool)
    ensures
        final(out)@ == old(out)@ + device_entry(*d, verbose),
{
    let ghost start = out@;
    out.append("  ");
    out.append(d.path.as_str());
    out.append(" - ");
    let desc = d.description();
    out.append(desc.as_str());
    if d.is_mounted {
        out.append(" ⚠️  [MOUNTED]");
    }
    out.append("\n");
    if verbose {
        push_device_details(out, d);
    }
    assert(out@ =~= start + device_entry(*d, verbose));
}

/// The listing of USB devices, as shown by the `list` command: one entry per
/// device (with details in verbose mode), then a hint and, when some devices
/// are mounted, a warning with their number; or tips when there is none.
pub fn device_list(devices: &[UsbDevice], verbose: bool) -> (s: String)
    ensures
        s@ == device_list_text(devices@, verbose),
{
    let mut out = String::new();
    if devices.len() == 0 {
        out.append("❌ No USB devices found\n");
        out.append("\n💡 Tips:\n");
        out.append("   • Make sure your USB device is connected\n");
        out.append("   • Try running with sudo if you don't see expected devices\n");
        assert(out@ =~= no_devices_text());
        return out;
    }
    out.append("📀 Available USB devices:\n\n");
    let ghost start = out@;
    let mut i: usize = 0;
    let mut mounted: usize = 0;
    assert(devices@.take(0) =~= Seq::<UsbDevice>::empty());
    while i < devices.len()
        invariant
            i <= devices.len(),
            out@ == start + device_entries(devices@.take(i as int), verbose),
            mounted == mounted_count(devices@.take(i as int)),
            mounted <= i,
        decreases devices.len() - i,
    {
        let ghost before = out@;
        push_device_entry(&mut out, &devices[i], verbose);
        assert(devices@.take((i + 1) as int).drop_last() =~= devices@.take(i as int));
        assert(out@ =~= start + device_entries(devices@.take((i + 1) as int), verbose));
        if devices[i].is_mounted {
            mounted = mounted + 1;
        }
        i = i + 1;
    }
    assert(devices@.take(devices.len() as int) =~= devices@);
    out.append("\n💡 Use 'flicker write --iso <file> --device <device>' to write an ISO\n");
    if mounted > 0 {
        out.append("\n⚠️  ");
        push_decimal(&mut out, mounted as u128);
        out.append(" device(s) are currently mounted\n");
        out.append("   Flicker will automatically unmount them before writing\n");
    }
    assert(out@ =~= device_list_text(devices@, verbose));
    out
}

/// What was read for one entry of /sys/block: its name, each attribute that
/// could be read, and the mount table if it could be read.
pub struct BlockDeviceReading {
    pub name: String,
    pub removable: Option<String>,
    pub size: Option<String>,
    pub vendor: Option<String>,
    pub model: Option<String>,
    pub serial: Option<String>,
    pub mounts: Option<String>,
}

/// The text of an owned attribute, if it was read.
pub open spec fn string_text(value: Option<String>) -> Option<Seq<char>> {
    match value {
        Some(v) => Some(v@),
        None => None,
    }
}

/// What the description of a block device is, given what was read for it.
pub open spec fn reading_gives(e: BlockDeviceReading, found: Result<UsbDevice, DetectError>) -> bool {
    device_from_sysfs(
        e.name@,
        string_text(e.removable),
        string_text(e.size),
        string_text(e.vendor),
        string_text(e.model),
        string_text(e.serial),
        string_text(e.mounts),
        found,
    )
}

/// A block device that is listed as a USB device: not a loop, RAM or
/// device-mapper device, removable, with a readable size in sectors, and
/// with the mount table read.
pub open spec fn is_usb_reading(e: BlockDeviceReading) -> bool {
    &&& !is_virtual_block_device(e.name@)
    &&& removable_attribute(string_text(e.removable)) == seq!['1']
    &&& e.size is Some
    &&& sector_count(e.size.unwrap()@) is Some
    &&& e.mounts is Some
}

/// The indices of the readings that are USB devices, in order.
pub open spec fn usb_indices(es: Seq<BlockDeviceReading>) -> Seq<int>
    decreases es.len(),
{
    if es.len() == 0 {
        seq![]
    } else {
        usb_indices(es.drop_last()) + if is_usb_reading(es.last()) {
            seq![es.len() - 1]
        } else {
            Seq::<int>::empty()
        }
    }
}

/// The size of a listed, removable device fits in bytes.
pub open spec fn size_fits(e: BlockDeviceReading) -> bool {
    !is_virtual_block_device(e.name@) && removable_attribute(string_text(e.removable)) == seq!['1']
        ==> (e.size matches Some(t) ==> (sector_count(t@) matches Some(n) ==> n * 512 <= u64::MAX))
}

fn as_text(value: &Option<String>) -> (r: Option<&str>)
    ensures
        text_of(r) == string_text(*value),
{
    match value {
        Some(v) => Some(v.as_str()),
        None => None,
    }
}

proof fn lemma_usb_indices_bounded(es: Seq<BlockDeviceReading>)
    ensures
        forall|k: int|
            0 <= k < usb_indices(es).len() ==> 0 <= #[trigger] usb_indices(es)[k] < es.len(),
    decreases es.len(),
{
    if es.len() > 0 {
        lemma_usb_indices_bounded(es.drop_last());
        let p = usb_indices(es.drop_last());
        assert forall|k: int| 0 <= k < usb_indices(es).len() implies 0 <= #[trigger] usb_indices(
            es,
        )[k] < es.len() by {
            if k < p.len() {
                assert(usb_indices(es)[k] == p[k]);
            }
        }
    }
}

/// The USB devices among the entries of /sys/block, in order: loop, RAM and
/// device-mapper devices are skipped, and so is every device that is not
/// removable or whose size or mount table could not be read.
pub fn usb_devices_from(readings: &Vec<BlockDeviceReading>) -> (r: Vec<UsbDevice>)
    requires
        forall|i: int| 0 <= i < readings.len() ==> size_fits(#[trigger] readings@[i]),
    ensures
        r.len() == usb_indices(readings@).len(),
        forall|k: int|
            0 <= k < r.len() ==> reading_gives(
                readings@[#[trigger] usb_indices(readings@)[k]],
                Ok::<UsbDevice, DetectError>(r@[k]),
            ),
{
    let mut found: Vec<UsbDevice> = Vec::new();
    let mut i: usize = 0;
    assert(readings@.take(0) =~= Seq::<BlockDeviceReading>::empty());
    while i < readings.len()
        invariant
            i <= readings.len(),
            forall|j: int| 0 <= j < readings.len() ==> size_fits(#[trigger] readings@[j]),
            found.len() == usb_indices(readings@.take(i as int)).len(),
            forall|k: int|
                0 <= k < found.len() ==> usb_indices(readings@.take(i as int))[k] < i && reading_gives(
                    readings@[#[trigger] usb_indices(readings@.take(i as int))[k]],
                    Ok::<UsbDevice, DetectError>(found@[k]),
                ),
        decreases readings.len() - i,
    {
        let e = &readings[i];
        let ghost before = usb_indices(readings@.take(i as int));
        assert(readings@.take((i + 1) as int).drop_last() =~= readings@.take(i as int));
        assert(readings@.take((i + 1) as int).last() == readings@[i as int]);
        proof {
            lemma_usb_indices_bounded(readings@.take(i as int));
        }
        if is_listed_block_device(e.name.as_str()) {
            let result = check_if_usb_device(
                e.name.as_str(),
                as_text(&e.removable),
                as_text(&e.size),
                as_text(&e.vendor),
                as_text(&e.model),
                as_text(&e.serial),
                as_text(&e.mounts),
            );
            match result {
                Ok(d) => {
                    found.push(d);
                },
                Err(_) => {},
            }
        }
        proof {
            let now = usb_indices(readings@.take((i + 1) as int));
            if is_usb_reading(readings@[i as int]) {
                assert(now =~= before.push(i as int));
            } else {
                assert(now =~= before);
            }
            assert forall|k: int| 0 <= k < found.len() implies now[k] < i + 1 && reading_gives(
                readings@[#[trigger] now[k]],
                Ok::<UsbDevice, DetectError>(found@[k]),
            ) by {
                if k < before.len() {
                    assert(now[k] == before[k]);
                }
            }
        }
        i = i + 1;
    }
    assert(readings@.take(readings.len() as int) =~= readings@);
    found
}

} // verus!
