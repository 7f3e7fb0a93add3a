//! Finding the serial port of the device.
use crate::text;
use vstd::prelude::*;
use vstd::string::*;

verus! {

broadcast use vstd::string::group_string_axioms;

/// The USB vendor of the device.
pub const VENDOR_ID: u16 = 0x2E8A;

/// The USB product of the device.
pub const PRODUCT_ID: u16 = 0xF010;

/// The two numbers by which USB devices are known.
#[derive(Debug, Clone, Copy, PartialEq, Eq, Structural)]
pub struct UsbIds {
    pub vid: u16,
    pub pid: u16,
}

/// A serial port; only one on USB has ids.
#[derive(Debug)]
pub struct SerialPort {
    pub name: String,
    pub usb: Option<UsbIds>,
}

// ---- the least of some names ----

/// Whether `r` is the first of some names in the order of texts; there is none where there are no
/// names.
pub open spec fn is_least(names: Seq<Seq<char>>, r: Option<Seq<char>>) -> bool {
    match r {
        Some(n) => names.contains(n) && forall|i: int|
            0 <= i < names.len() ==> !text::comes_before(#[trigger] names[i], n),
        None => names.len() == 0,
    }
}

/// The first of some names in the order of texts.
pub fn least(names: &Vec<String>) -> (r: Option<String>)
    ensures
        is_least(text::texts(names@), text::option_text(r)),
{
    let ghost views = text::texts(names@);
    if names.len() == 0 {
        return None;
    }
    let mut best: usize = 0;
    let mut i: usize = 0;
    while i < names.len()
        invariant
            i <= names@.len(),
            best < names@.len(),
            views == text::texts(names@),
            forall|k: int|
                0 <= k < i ==> !text::comes_before(#[trigger] views[k], views[best as int]),
        decreases names@.len() - i,
    {
        let ghost previous = best;
        if text::text_before(names[i].as_str(), names[best].as_str()) {
            best = i;
        }
        assert forall|k: int| 0 <= k < i + 1 implies !text::comes_before(
            #[trigger] views[k],
            views[best as int],
        ) by {
            text::lemma_before_total(views[k], views[best as int]);
            if best == i && previous != i && k < i && text::comes_before(views[k], views[i as int]) {
                text::lemma_before_transitive(views[k], views[i as int], views[previous as int]);
            }
        }
        i += 1;
    }
    assert(views[best as int] == names@[best as int]@);
    Some(names[best].clone())
}

/// There is only one first name, whatever the order in which the names are listed.
pub proof fn least_is_unique(a: Seq<Seq<char>>, b: Seq<Seq<char>>, x: Seq<char>, y: Seq<char>)
    requires
        forall|n: Seq<char>| a.contains(n) <==> b.contains(n),
        is_least(a, Some(x)),
        is_least(b, Some(y)),
    ensures
        x == y,
{
    text::lemma_before_total(x, y);
    assert(b.contains(x));
    assert(a.contains(y));
    let i = choose|i: int| 0 <= i < b.len() && b[i] == x;
    let j = choose|j: int| 0 <= j < a.len() && a[j] == y;
    assert(!text::comes_before(b[i], y));
    assert(!text::comes_before(a[j], x));
}

/// The first name is one of the names and comes before every other; there is one exactly where there
/// are names.
pub proof fn the_first_name_comes_before_the_others(
    names: Seq<Seq<char>>,
    r: Option<Seq<char>>,
    k: int,
)
    requires
        is_least(names, r),
        0 <= k < names.len(),
    ensures
        r is Some,
        names.contains(r.unwrap()),
        names[k] == r.unwrap() || text::comes_before(r.unwrap(), names[k]),
{
    text::lemma_before_total(names[k], r.unwrap());
    assert(!text::comes_before(names[k], r.unwrap()));
}

// ---- ports that are known to be on USB ----

/// The names of the ports that are the device's.
pub open spec fn device_ports(ports: Seq<SerialPort>) -> Seq<Seq<char>>
    decreases ports.len(),
{
    if ports.len() == 0 {
        Seq::empty()
    } else {
        let before = device_ports(ports.drop_last());
        if ports.last().usb == Some(UsbIds { vid: VENDOR_ID, pid: PRODUCT_ID }) {
            before.push(ports.last().name@)
        } else {
            before
        }
    }
}

/// The device's port: of those with its USB ids the first by name.
pub fn find_roto_control_port(ports: &Vec<SerialPort>) -> (r: Option<String>)
    ensures
        is_least(device_ports(ports@), text::option_text(r)),
{
    let mut names: Vec<String> = Vec::new();
    let mut i: usize = 0;
    assert(ports@.take(0) == Seq::<SerialPort>::empty());
    assert(text::texts(names@) == device_ports(ports@.take(0)));
    while i < ports.len()
        invariant
            i <= ports@.len(),
            text::texts(names@) == device_ports(ports@.take(i as int)),
        decreases ports@.len() - i,
    {
        let ghost before = text::texts(names@);
        if let Some(ids) = ports[i].usb {
            if ids.vid == VENDOR_ID && ids.pid == PRODUCT_ID {
                names.push(ports[i].name.clone());
                assert(text::texts(names@) == before.push(ports@[i as int].name@));
            }
        }
        i += 1;
        assert(ports@.take(i as int).drop_last() == ports@.take(i - 1));
    }
    assert(ports@.take(i as int) == ports@);
    least(&names)
}

// ---- terminals listed by the kernel ----

/// The contents of the files `idVendor` and `idProduct` of one device in the kernel's tree; empty
/// where a file is missing.
#[derive(Debug)]
pub struct IdFiles {
    pub vendor: String,
    pub product: String,
}

/// A terminal that the kernel lists, with the id files of its device and of everything above it.
#[derive(Debug)]
pub struct TtyEntry {
    pub name: String,
    pub ids: Vec<IdFiles>,
}

/// Whether two ids, trimmed and in lower case, are the device's.
pub open spec fn are_device_ids(vendor: Seq<char>, product: Seq<char>) -> bool {
    vendor == "2e8a"@ && product == "f010"@
}

/// Whether two ids, trimmed and in lower case, are the device's.
pub fn is_roto_control(vendor: &str, product: &str) -> (r: bool)
    ensures
        r == are_device_ids(vendor@, product@),
{
    text::same_text(vendor, "2e8a") && text::same_text(product, "f010")
}

/// Whether id files are the device's.
pub open spec fn holds_device_ids(files: IdFiles) -> bool {
    are_device_ids(
        text::lowercase(text::trimmed(files.vendor@)),
        text::lowercase(text::trimmed(files.product@)),
    )
}

/// Whether a terminal may be the device's by its name.
pub fn is_candidate_tty(name: &str) -> (r: bool)
    ensures
        r == text::begins_with(name@, "ttyACM"@),
{
    text::starts_with(name, "ttyACM")
}

/// Whether a terminal is the device's: its name says so, and its device or one above it has the
/// device's ids.
pub open spec fn is_device_tty(entry: TtyEntry) -> bool {
    text::begins_with(entry.name@, "ttyACM"@) && exists|k: int|
        0 <= k < entry.ids@.len() && holds_device_ids(#[trigger] entry.ids@[k])
}

/// The paths of the terminals that are the device's.
pub open spec fn device_ttys(entries: Seq<TtyEntry>) -> Seq<Seq<char>>
    decreases entries.len(),
{
    if entries.len() == 0 {
        Seq::empty()
    } else {
        let before = device_ttys(entries.drop_last());
        if is_device_tty(entries.last()) {
            before.push("/dev/"@ + entries.last().name@)
        } else {
            before
        }
    }
}

fn tty_is_device(entry: &TtyEntry) -> (r: bool)
    ensures
        r == is_device_tty(*entry),
{
    if !is_candidate_tty(entry.name.as_str()) {
        return false;
    }
    let mut k: usize = 0;
    while k < entry.ids.len()
        invariant
            k <= entry.ids@.len(),
            text::begins_with(entry.name@, "ttyACM"@),
            forall|j: int| 0 <= j < k ==> !holds_device_ids(#[trigger] entry.ids@[j]),
        decreases entry.ids@.len() - k,
    {
        let files = &entry.ids[k];
        let vendor = text::to_lowercase(text::trim(files.vendor.as_str()).as_str());
        let product = text::to_lowercase(text::trim(files.product.as_str()).as_str());
        if is_roto_control(vendor.as_str(), product.as_str()) {
            assert(holds_device_ids(entry.ids@[k as int]));
            return true;
        }
        k += 1;
    }
    false
}

/// The device's port among the terminals: of those that are the device's the first by path.
pub fn find_tty_port(entries: &Vec<TtyEntry>) -> (r: Option<String>)
    ensures
        is_least(device_ttys(entries@), text::option_text(r)),
{
    let mut names: Vec<String> = Vec::new();
    let mut i: usize = 0;
    assert(entries@.take(0) == Seq::<TtyEntry>::empty());
    assert(text::texts(names@) == device_ttys(entries@.take(0)));
    while i < entries.len()
        invariant
            i <= entries@.len(),
            text::texts(names@) == device_ttys(entries@.take(i as int)),
        decreases entries@.len() - i,
    {
        let ghost before = text::texts(names@);
        if tty_is_device(&entries[i]) {
            let mut path = "/dev/".to_string();
            path.append(entries[i].name.as_str());
            names.push(path);
            assert(text::texts(names@) == before.push("/dev/"@ + entries@[i as int].name@));
        }
        i += 1;
        assert(entries@.take(i as int).drop_last() == entries@.take(i - 1));
    }
    assert(entries@.take(i as int) == entries@);
    least(&names)
}

// ---- both ----

/// The device's port: among the listed ports where one is the device's, else among the terminals.
pub fn find_port(listed: &Vec<SerialPort>, entries: &Vec<TtyEntry>) -> (r: Option<String>)
    ensures
        is_least(
            if device_ports(listed@).len() > 0 {
                device_ports(listed@)
            } else {
                device_ttys(entries@)
            },
            text::option_text(r),
        ),
{
    match find_roto_control_port(listed) {
        Some(name) => Some(name),
        None => find_tty_port(entries),
    }
}

// ---- which ports are the device's ----

/// The device's ports are exactly those on USB with its two numbers.
pub proof fn device_ports_have_its_numbers(ports: Seq<SerialPort>, name: Seq<char>)
    ensures
        device_ports(ports).contains(name) <==> exists|i: int|
            {
                &&& 0 <= i < ports.len()
                &&& (#[trigger] ports[i]).name@ == name
                &&& ports[i].usb is Some
                &&& ports[i].usb.unwrap().vid == 0x2E8A
                &&& ports[i].usb.unwrap().pid == 0xF010
            },
    decreases ports.len(),
{
    if ports.len() > 0 {
        let earlier = ports.drop_last();
        let last = ports.last();
        device_ports_have_its_numbers(earlier, name);
        let before = device_ports(earlier);
        let all = device_ports(ports);
        let fits = last.usb is Some && last.usb.unwrap().vid == 0x2E8A && last.usb.unwrap().pid
            == 0xF010;
        assert(ports[ports.len() - 1] == last);
        if all.contains(name) {
            let k = all.index_of(name);
            if k < before.len() {
                assert(before[k] == name);
                let i = choose|i: int|
                    {
                        &&& 0 <= i < earlier.len()
                        &&& (#[trigger] earlier[i]).name@ == name
                        &&& earlier[i].usb is Some
                        &&& earlier[i].usb.unwrap().vid == 0x2E8A
                        &&& earlier[i].usb.unwrap().pid == 0xF010
                    };
                assert(ports[i] == earlier[i]);
            }
        }
        if exists|i: int|
            {
                &&& 0 <= i < ports.len()
                &&& (#[trigger] ports[i]).name@ == name
                &&& ports[i].usb is Some
                &&& ports[i].usb.unwrap().vid == 0x2E8A
                &&& ports[i].usb.unwrap().pid == 0xF010
            } {
            let i = choose|i: int|
                {
                    &&& 0 <= i < ports.len()
                    &&& (#[trigger] ports[i]).name@ == name
                    &&& ports[i].usb is Some
                    &&& ports[i].usb.unwrap().vid == 0x2E8A
                    &&& ports[i].usb.unwrap().pid == 0xF010
                };
            if i < earlier.len() {
                assert(earlier[i] == ports[i]);
                let k = before.index_of(name);
                assert(all[k] == name);
            } else {
                assert(all[all.len() - 1] == name);
            }
        }
    }
}

/// Whether id files hold the device's two numbers, in hexadecimal, whatever the case and whatever
/// white space there is around them.
pub open spec fn are_the_devices(files: IdFiles) -> bool {
    &&& text::lowercase(text::trimmed(files.vendor@)) == "2e8a"@
    &&& text::lowercase(text::trimmed(files.product@)) == "f010"@
}

/// A terminal is the device's where its name begins with `ttyACM` and it, or a device above it, has
/// the device's numbers; both at the same device.
pub proof fn device_ttys_have_its_numbers(entry: TtyEntry)
    ensures
        is_device_tty(entry) <==> {
            &&& text::begins_with(entry.name@, "ttyACM"@)
            &&& exists|k: int| 0 <= k < entry.ids@.len() && are_the_devices(#[trigger] entry.ids@[k])
        },
{
    assert forall|k: int| 0 <= k < entry.ids@.len() implies holds_device_ids(
        #[trigger] entry.ids@[k],
    ) == are_the_devices(entry.ids@[k]) by {}
}

/// The device's terminals are listed by their paths, in order: those of a list are those of its
/// beginning followed by those of the rest.
pub proof fn device_ttys_are_listed_in_order(a: Seq<TtyEntry>, b: Seq<TtyEntry>, entry: TtyEntry)
    ensures
        device_ttys(a + b) == device_ttys(a) + device_ttys(b),
        is_device_tty(entry) ==> device_ttys(seq![entry]) == seq!["/dev/"@ + entry.name@],
        !is_device_tty(entry) ==> device_ttys(seq![entry]).len() == 0,
    decreases b.len(),
{
    if b.len() > 0 {
        device_ttys_are_listed_in_order(a, b.drop_last(), entry);
        assert((a + b).drop_last() =~= a + b.drop_last());
        assert(device_ttys(a + b) =~= device_ttys(a) + device_ttys(b));
    } else {
        assert(a + b =~= a);
        assert(device_ttys(a) + device_ttys(b) =~= device_ttys(a));
    }
    assert(seq![entry].drop_last() =~= Seq::<TtyEntry>::empty());
    reveal_with_fuel(device_ttys, 2);
    if is_device_tty(entry) {
        assert(device_ttys(seq![entry]) =~= seq!["/dev/"@ + entry.name@]);
    }
}

} // verus!
