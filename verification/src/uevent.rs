//! Kernel events about devices: which of them announce a new block
//! device, and which device that is.

use vstd::prelude::*;
use crate::system::DeviceInfo;
use crate::text::{from_chars, rows, same_chars, split_chars, split_on, to_chars};

verus! {

/// Why a kernel event could not be read.
#[derive(Clone, Copy, Debug, PartialEq, Eq, Structural)]
pub enum UeventError {
    /// The message is shorter than its own header, or longer than the
    /// buffer that holds it.
    UnexpectedLength(usize),
}

/// The text that `String::from_utf8_lossy` makes of bytes: their text as
/// UTF-8, with the replacement character in place of what is not.
pub uninterp spec fn utf8_lossy(bytes: Seq<u8>) -> Seq<char>;

/// Calls `String::from_utf8_lossy` and takes the text it gives: bytes
/// that are UTF-8 give the text that they encode.
#[verifier::external_body]
fn decode_lossy(bytes: &[u8]) -> (r: String)
    ensures
        r@ == utf8_lossy(bytes@),
        vstd::utf8::valid_utf8(bytes@) ==> r@ == vstd::utf8::decode_utf8(bytes@),
{
    String::from_utf8_lossy(bytes).into_owned()
}

/// The parts of `s` between zero bytes: one more than there are zero
/// bytes, empty parts included.
pub open spec fn zero_split(s: Seq<u8>) -> Seq<Seq<u8>>
    decreases s.len(),
{
    if s.len() == 0 {
        seq![Seq::<u8>::empty()]
    } else {
        let before = zero_split(s.drop_last());
        if s.last() == 0 {
            before.push(Seq::<u8>::empty())
        } else {
            before.drop_last().push(before.last().push(s.last()))
        }
    }
}

/// The views of a sequence of byte vectors.
pub open spec fn byte_rows(v: Seq<Vec<u8>>) -> Seq<Seq<u8>> {
    Seq::new(v.len(), |i: int| v[i]@)
}

/// Cuts the first `len` bytes of `buf` at every zero byte.
fn split_at_zeros(buf: &[u8], len: usize) -> (r: Vec<Vec<u8>>)
    requires
        len <= buf.len(),
    ensures
        byte_rows(r@) == zero_split(buf@.take(len as int)),
{
    let mut parts: Vec<Vec<u8>> = Vec::new();
    let mut cur: Vec<u8> = Vec::new();
    let mut i: usize = 0;
    while i < len
        invariant
            i <= len <= buf.len(),
            byte_rows(parts@).push(cur@) == zero_split(buf@.take(i as int)),
        decreases len - i,
    {
        let ghost before = zero_split(buf@.take(i as int));
        assert(buf@.take(i + 1).drop_last() == buf@.take(i as int));
        assert(buf@.take(i + 1).last() == buf@[i as int]);
        if buf[i] == 0 {
            let ghost old_parts = parts@;
            parts.push(cur);
            cur = Vec::new();
            assert(byte_rows(parts@) == byte_rows(old_parts).push(parts@.last()@));
        } else {
            cur.push(buf[i]);
            assert(before.drop_last() == byte_rows(parts@));
        }
        i += 1;
    }
    let ghost old_parts = parts@;
    parts.push(cur);
    assert(byte_rows(parts@) == byte_rows(old_parts).push(parts@.last()@));
    parts
}

/// The variable that names the subsystem of the device.
pub open spec fn key_subsystem() -> Seq<char> {
    seq!['S', 'U', 'B', 'S', 'Y', 'S', 'T', 'E', 'M']
}

/// The variable that names the device.
pub open spec fn key_devname() -> Seq<char> {
    seq!['D', 'E', 'V', 'N', 'A', 'M', 'E']
}

/// The variable that holds the number of the partition.
pub open spec fn key_partn() -> Seq<char> {
    seq!['P', 'A', 'R', 'T', 'N']
}

/// The subsystem of the block devices.
pub open spec fn subsystem_block() -> Seq<char> {
    seq!['b', 'l', 'o', 'c', 'k']
}

/// What is known of the device of an event after some of its variables.
pub struct Scan {
    /// No variable has named a subsystem other than the block devices.
    pub block: bool,
    /// The name of the device, empty until a variable gives it.
    pub devname: Seq<char>,
    /// The number of the partition, empty until a variable gives it.
    pub partn: Seq<char>,
}

/// What the reader of an event knows of its device so far.
#[derive(Debug, PartialEq, Eq)]
pub struct Known {
    /// No variable has named a subsystem other than the block devices.
    pub block: bool,
    /// The name of the device, empty until a variable gives it.
    pub devname: String,
    /// The number of the partition, empty until a variable gives it.
    pub partn: String,
}

impl View for Known {
    type V = Scan;

    open spec fn view(&self) -> Scan {
        Scan { block: self.block, devname: self.devname@, partn: self.partn@ }
    }
}

/// What is known before any variable was read.
pub open spec fn scan_start() -> Scan {
    Scan { block: true, devname: Seq::empty(), partn: Seq::empty() }
}

/// What is known after one more variable with the text `text`. A
/// variable counts when its text holds exactly one `=`; the subsystem
/// has to be that of the block devices, and the last name and the
/// last partition number count. Once another subsystem was named,
/// nothing changes any more.
pub open spec fn variable_step(scan: Scan, text: Seq<char>) -> Scan {
    let fields = split_on(text, '=');
    if !scan.block || fields.len() != 2 {
        scan
    } else if fields[0] == key_subsystem() {
        Scan { block: fields[1] == subsystem_block(), ..scan }
    } else if fields[0] == key_devname() {
        Scan { devname: fields[1], ..scan }
    } else if fields[0] == key_partn() {
        Scan { partn: fields[1], ..scan }
    } else {
        scan
    }
}

/// What is known after one more variable, given as the bytes between
/// two zero bytes: an empty one says nothing, any other is read as
/// text.
pub open spec fn scan_step(scan: Scan, var: Seq<u8>) -> Scan {
    if var.len() == 0 {
        scan
    } else {
        variable_step(scan, utf8_lossy(var))
    }
}

impl Known {
    /// What is known before any variable was read.
    pub fn new() -> (r: Known)
        ensures
            r@ == scan_start(),
    {
        let nothing: Vec<char> = Vec::new();
        Known {
            block: true,
            devname: from_chars(nothing.as_slice()),
            partn: from_chars(nothing.as_slice()),
        }
    }
}

/// Takes in one more variable of an event, given as text.
pub fn read_variable(known: Known, text: &str) -> (r: Known)
    ensures
        r@ == variable_step(known@, text@),
{
    if !known.block {
        return known;
    }
    let chars = to_chars(text);
    let fields = split_chars(chars.as_slice(), '=');
    if fields.len() != 2 {
        return known;
    }
    assert(rows(fields@)[0] == fields@[0]@);
    assert(rows(fields@)[1] == fields@[1]@);
    let subsystem = to_chars("SUBSYSTEM");
    let devname_key = to_chars("DEVNAME");
    let partn_key = to_chars("PARTN");
    let block = to_chars("block");
    proof {
        reveal_strlit("SUBSYSTEM");
        reveal_strlit("DEVNAME");
        reveal_strlit("PARTN");
        reveal_strlit("block");
    }
    assert(subsystem@ == key_subsystem());
    assert(devname_key@ == key_devname());
    assert(partn_key@ == key_partn());
    assert(block@ == subsystem_block());
    if same_chars(fields[0].as_slice(), subsystem.as_slice()) {
        Known { block: same_chars(fields[1].as_slice(), block.as_slice()), ..known }
    } else if same_chars(fields[0].as_slice(), devname_key.as_slice()) {
        Known { devname: from_chars(fields[1].as_slice()), ..known }
    } else if same_chars(fields[0].as_slice(), partn_key.as_slice()) {
        Known { partn: from_chars(fields[1].as_slice()), ..known }
    } else {
        known
    }
}

/// What is known after the first `n` variables.
pub open spec fn scan_upto(vars: Seq<Seq<u8>>, n: nat) -> Scan
    decreases n,
{
    if n == 0 {
        scan_start()
    } else {
        scan_step(scan_upto(vars, (n - 1) as nat), vars[n - 1])
    }
}

/// Whether the message starts with the header of an event that adds a
/// device.
pub open spec fn is_add(message: Seq<u8>) -> bool {
    message.len() >= 4 && message[0] == 0x61 && message[1] == 0x64 && message[2] == 0x64
        && message[3] == 0x40
}

/// The device that a kernel event announces: the event has to add a
/// device of the block subsystem and to name it.
pub open spec fn announced(message: Seq<u8>) -> Option<(Seq<char>, Option<Seq<char>>)> {
    let vars = zero_split(message);
    let scan = scan_upto(vars, vars.len());
    if !is_add(message) || !scan.block || scan.devname.len() == 0 {
        None
    } else {
        Some(
            (
                scan.devname,
                if scan.partn.len() > 0 {
                    Some(scan.partn)
                } else {
                    None
                },
            ),
        )
    }
}

/// What a device says, as text.
pub open spec fn device_view(dev: DeviceInfo) -> (Seq<char>, Option<Seq<char>>) {
    (dev.name@, crate::text::opt_view(dev.part_num))
}

/// Reads a kernel event from the first `len` bytes of `buf`. Only an
/// event that adds a block device and names it gives a device: its
/// name and, for a partition, its number.
pub fn handle_message(buf: &[u8], len: usize) -> (r: Result<Option<DeviceInfo>, UeventError>)
    ensures
        match r {
            Ok(Some(dev)) => 4 <= len <= buf@.len() && announced(buf@.take(len as int)) == Some(
                device_view(dev),
            ),
            Ok(None) => 4 <= len <= buf@.len() && announced(buf@.take(len as int)) is None,
            Err(e) => (len < 4 || len > buf@.len()) && e == UeventError::UnexpectedLength(len),
        },
{
    if len < 4 || len > buf.len() {
        return Err(UeventError::UnexpectedLength(len));
    }
    let ghost message = buf@.take(len as int);
    // Only handle events that add a device.
    if !(buf[0] == 0x61 && buf[1] == 0x64 && buf[2] == 0x64 && buf[3] == 0x40) {
        return Ok(None);
    }
    assert(is_add(message));
    let vars = split_at_zeros(buf, len);
    let mut known = Known::new();
    let mut i: usize = 0;
    while i < vars.len()
        invariant
            i <= vars.len(),
            byte_rows(vars@) == zero_split(message),
            known@ == scan_upto(zero_split(message), i as nat),
        decreases vars.len() - i,
    {
        assert(byte_rows(vars@)[i as int] == vars@[i as int]@);
        if vars[i].len() > 0 {
            let text = decode_lossy(vars[i].as_slice());
            known = read_variable(known, text.as_str());
        }
        i += 1;
    }
    let name = to_chars(known.devname.as_str());
    if !known.block || name.len() == 0 {
        return Ok(None);
    }
    let number = to_chars(known.partn.as_str());
    let part_num = if number.len() > 0 {
        Some(known.partn)
    } else {
        None
    };
    Ok(Some(DeviceInfo { name: known.devname, part_num }))
}

} // verus!
