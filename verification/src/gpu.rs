//! GPU (Vulkan) device listing: whisper.cpp's ggml-vulkan backend logs the
//! devices it finds to stderr, e.g.
//! `ggml_vulkan: 0 = AMD Radeon RX 7800 XT (AMD proprietary driver) | uma: 0 | ...`.
//! The listing is parsed so the UI can show the detected GPU(s) and suggest
//! the discrete one.
use vstd::prelude::*;

use crate::text::{
    chars_of, contains, contains_seq, find_char, find_first, find_last, has_prefix, join,
    join_chars, lemma_find_first_none, lines, lines_of, parse_u32, parse_u32_spec, rfind_char,
    slice, split_whitespace, starts_with, string_from_chars, trim, trimmed, views, words,
};

verus! {

#[derive(Debug, Clone, PartialEq, Eq)]
pub struct VulkanDevice {
    /// ggml device index, the value for `GGML_VK_VISIBLE_DEVICES`.
    pub index: u32,
    pub name: String,
    /// `uma: 1`: an integrated GPU sharing system memory.
    pub integrated: bool,
}

#[derive(Debug, Clone)]
pub struct GpuProbe {
    /// At least one Vulkan device was detected.
    pub available: bool,
    pub devices: Vec<VulkanDevice>,
    /// The probe actually ran.
    pub probed: bool,
    /// The first non-integrated device, else the first device.
    pub recommended_index: Option<u32>,
}

pub type DeviceView = (u32, Seq<char>, bool);

pub open spec fn device_view(d: VulkanDevice) -> DeviceView {
    (d.index, d.name@, d.integrated)
}

pub open spec fn device_views(ds: Seq<VulkanDevice>) -> Seq<DeviceView> {
    ds.map_values(|d: VulkanDevice| device_view(d))
}

/// Strips a trailing "(driver ...)" tag and collapses internal whitespace.
pub open spec fn clean_name(raw: Seq<char>) -> Seq<char> {
    let name = trim(raw);
    let cut = if name.len() > 0 && name.last() == ')' {
        match find_last(name, '(') {
            Some(open) => trim(name.subrange(0, open)),
            None => name,
        }
    } else {
        name
    };
    join(words(cut), " "@)
}

/// The device one line of the listing announces, if it is a device line:
/// `ggml_vulkan: <index> = <name> | <attrs>`.
pub open spec fn device_of_line(line: Seq<char>) -> Option<DeviceView> {
    let t = trim(line);
    let tag = "ggml_vulkan:"@;
    if !has_prefix(t, tag) {
        None
    } else {
        let rest = trim(t.subrange(tag.len() as int, t.len() as int));
        match find_first(rest, '=') {
            None => None,
            Some(eq) => {
                let after = rest.subrange(eq + 1, rest.len() as int);
                match parse_u32_spec(trim(rest.subrange(0, eq))) {
                    None => None,
                    Some(index) => {
                        let (name_part, attrs) = match find_first(after, '|') {
                            Some(bar) => (after.subrange(0, bar), after.subrange(bar + 1, after.len() as int)),
                            None => (after, Seq::<char>::empty()),
                        };
                        let name = clean_name(name_part);
                        if name.len() == 0 {
                            None
                        } else {
                            Some((index, name, contains_seq(attrs, "uma: 1"@) || contains_seq(attrs, "uma:1"@)))
                        }
                    },
                }
            },
        }
    }
}

/// The devices announced by `ls`, in order.
pub open spec fn devices_of_lines(ls: Seq<Seq<char>>) -> Seq<DeviceView>
    decreases ls.len(),
{
    if ls.len() == 0 {
        Seq::<DeviceView>::empty()
    } else {
        let prev = devices_of_lines(ls.drop_last());
        match device_of_line(ls.last()) {
            Some(d) => prev.push(d),
            None => prev,
        }
    }
}

fn clean_device_name(raw: &Vec<char>) -> (r: Vec<char>)
    ensures
        r@ == clean_name(raw@),
{
    let name = trimmed(raw);
    let cut = if name.len() > 0 && name[name.len() - 1] == ')' {
        match rfind_char(&name, '(') {
            Some(open) => {
                let head = slice(&name, 0, open);
                trimmed(&head)
            },
            None => name,
        }
    } else {
        name
    };
    let parts = split_whitespace(&cut);
    let space = chars_of(" ");
    join_chars(&parts, &space)
}

fn parse_line(line: &Vec<char>) -> (r: Option<VulkanDevice>)
    ensures
        match r {
            Some(d) => device_of_line(line@) == Some(device_view(d)),
            None => device_of_line(line@) is None,
        },
{
    let t = trimmed(line);
    let tag = chars_of("ggml_vulkan:");
    if !starts_with(&t, &tag) {
        return None;
    }
    let tail = slice(&t, tag.len(), t.len());
    let rest = trimmed(&tail);
    let eq = match find_char(&rest, '=') {
        Some(eq) => eq,
        None => {
            return None;
        },
    };
    proof {
        lemma_find_first_none(rest@, '=');
    }
    let index_part = slice(&rest, 0, eq);
    let index_str = trimmed(&index_part);
    let index = match parse_u32(&index_str) {
        Some(index) => index,
        None => {
            return None;
        },
    };
    let after = slice(&rest, eq + 1, rest.len());
    proof {
        lemma_find_first_none(after@, '|');
    }
    let (name_part, attrs) = match find_char(&after, '|') {
        Some(bar) => (slice(&after, 0, bar), slice(&after, bar + 1, after.len())),
        None => (slice(&after, 0, after.len()), Vec::new()),
    };
    assert(after@.subrange(0, after@.len() as int) == after@);
    let name = clean_device_name(&name_part);
    if name.len() == 0 {
        return None;
    }
    let uma_a = chars_of("uma: 1");
    let uma_b = chars_of("uma:1");
    let integrated = contains(&attrs, &uma_a) || contains(&attrs, &uma_b);
    Some(VulkanDevice { index, name: string_from_chars(&name), integrated })
}

/// Parses ggml-vulkan's device listing out of whisper.cpp stderr.
pub fn parse_vulkan_devices(stderr: &str) -> (r: Vec<VulkanDevice>)
    ensures
        device_views(r@) == devices_of_lines(lines(stderr@)),
{
    let text = chars_of(stderr);
    let ls = lines_of(&text);
    let ghost lv = views(ls@);
    let mut devices: Vec<VulkanDevice> = Vec::new();
    let mut i: usize = 0;
    while i < ls.len()
        invariant
            lv == views(ls@),
            i <= ls.len(),
            device_views(devices@) == devices_of_lines(lv.take(i as int)),
        decreases ls.len() - i,
    {
        assert(lv.take(i as int + 1).drop_last() == lv.take(i as int));
        assert(lv.take(i as int + 1).last() == ls@[i as int]@);
        let ghost old_devices = devices@;
        match parse_line(&ls[i]) {
            Some(d) => {
                devices.push(d);
                assert(device_views(devices@) =~= device_views(old_devices).push(device_view(d)));
            },
            None => {},
        }
        i = i + 1;
    }
    assert(lv.take(ls.len() as int) == lv);
    devices
}

/// The index to suggest pinning: the first non-integrated device, else the
/// first device.
pub open spec fn recommended(ds: Seq<DeviceView>) -> Option<u32> {
    if exists|i: int| 0 <= i < ds.len() && !ds[i].2 {
        let i = choose|i: int| 0 <= i < ds.len() && !ds[i].2 && forall|j: int| 0 <= j < i ==> ds[j].2;
        Some(ds[i].0)
    } else if ds.len() > 0 {
        Some(ds[0].0)
    } else {
        None
    }
}

pub fn recommended_index(devices: &Vec<VulkanDevice>) -> (r: Option<u32>)
    ensures
        r == recommended(device_views(devices@)),
{
    let ghost ds = device_views(devices@);
    let mut i: usize = 0;
    while i < devices.len()
        invariant
            ds == device_views(devices@),
            i <= devices.len(),
            forall|j: int| 0 <= j < i ==> ds[j].2,
        decreases devices.len() - i,
    {
        if !devices[i].integrated {
            assert(!ds[i as int].2);
            let ghost k = choose|k: int| 0 <= k < ds.len() && !ds[k].2 && forall|j: int| 0 <= j < k ==> ds[j].2;
            assert(k == i) by {
                if k < i {
                    assert(ds[k].2);
                }
                if k > i {
                    assert(ds[i as int].2);
                }
            }
            return Some(devices[i].index);
        }
        i = i + 1;
    }
    if devices.len() > 0 {
        Some(devices[0].index)
    } else {
        None
    }
}

/// The probe report for captured stderr.
pub fn probe_from_stderr(stderr: &str, probed: bool) -> (p: GpuProbe)
    ensures
        device_views(p.devices@) == devices_of_lines(lines(stderr@)),
        p.available == (p.devices.len() > 0),
        p.probed == probed,
        p.recommended_index == recommended(device_views(p.devices@)),
{
    let devices = parse_vulkan_devices(stderr);
    let recommended_index = recommended_index(&devices);
    GpuProbe { available: devices.len() > 0, recommended_index, probed, devices }
}

} // verus!
