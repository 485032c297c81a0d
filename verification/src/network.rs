//! Network interfaces: how they are named, which of them is the primary
//! one, what is remembered of them from one boot to the next, and how
//! the address of an interface is read from what the kernel reports.

use vstd::prelude::*;
use crate::backoff::Wait;
use crate::dhcp::{
    ipv4_spec, ipv4_text, ipv4_to_string, parse_ipv4, AddressConfig, DhcpLease, Ipv4,
    ResolverConfig,
};
use crate::text::{
    append_chars, decimal, from_chars, hex_byte, is_ascii_alpha, is_ascii_digit, is_prefix,
    opt_view, parse_u32, parse_u32_spec, push_decimal, push_hex_byte, same_chars, slice_chars,
    starts_with, to_chars, views,
};
use crate::vmspec::{nv_find, nv_map, nv_pairs, NameValue, NameValuesExt};

verus! {

/// Why the network could not be set up.
#[derive(Clone, Copy, Debug, PartialEq, Eq, Structural)]
pub enum NetError {
    /// A name that is never renamed was to be moved out of the way.
    ProtectedName,
    /// The interface has no IPv4 address.
    NoAddress,
    /// No default route leaves through the interface.
    NoGateway,
    /// The primary interface has no hardware address.
    NoMac,
}

/// A network interface as the kernel reports it.
#[derive(Debug, PartialEq, Eq)]
pub struct InterfaceInfo {
    pub name: String,
    pub mac: Option<[u8; 6]>,
    pub is_virtual: bool,
    pub ifindex: u32,
}

impl Clone for InterfaceInfo {
    fn clone(&self) -> (r: Self)
        ensures
            r == *self,
    {
        InterfaceInfo {
            name: self.name.clone(),
            mac: self.mac,
            is_virtual: self.is_virtual,
            ifindex: self.ifindex,
        }
    }
}

/// A hardware address as text: its six bytes in lower-case hexadecimal
/// with colons between them.
pub open spec fn mac_text(mac: Seq<u8>) -> Seq<char> {
    hex_byte(mac[0]) + seq![':'] + hex_byte(mac[1]) + seq![':'] + hex_byte(mac[2]) + seq![':']
        + hex_byte(mac[3]) + seq![':'] + hex_byte(mac[4]) + seq![':'] + hex_byte(mac[5])
}

/// Writes a hardware address as text.
pub fn mac_to_string(mac: [u8; 6]) -> (r: String)
    ensures
        r@ == mac_text(mac@),
{
    let mut out: Vec<char> = Vec::new();
    push_hex_byte(&mut out, mac[0]);
    out.push(':');
    push_hex_byte(&mut out, mac[1]);
    out.push(':');
    push_hex_byte(&mut out, mac[2]);
    out.push(':');
    push_hex_byte(&mut out, mac[3]);
    out.push(':');
    push_hex_byte(&mut out, mac[4]);
    out.push(':');
    push_hex_byte(&mut out, mac[5]);
    assert(out@ == mac_text(mac@));
    from_chars(out.as_slice())
}

/// The family of an interface name.
#[derive(Debug, PartialEq, Eq)]
pub enum IfFamily {
    /// Letters followed by a number, such as `eth5`.
    Simple { prefix: String, index: u32 },
    /// Any other name. Such an interface is never renamed.
    Protected,
}

impl Clone for IfFamily {
    fn clone(&self) -> (r: Self)
        ensures
            r == *self,
    {
        match self {
            IfFamily::Simple { prefix, index } => IfFamily::Simple {
                prefix: prefix.clone(),
                index: *index,
            },
            IfFamily::Protected => IfFamily::Protected,
        }
    }
}

/// Where the digits at the end of `name` start; the length of `name`
/// where it does not end in a digit.
pub open spec fn digits_start(name: Seq<char>) -> int
    decreases name.len(),
{
    if name.len() > 0 && is_ascii_digit(name.last()) {
        digits_start(name.drop_last())
    } else {
        name.len() as int
    }
}

/// The digits at the end of a name start inside the name or at its end.
pub proof fn lemma_digits_start_in_name(name: Seq<char>)
    ensures
        0 <= digits_start(name) <= name.len(),
    decreases name.len(),
{
    if name.len() > 0 && is_ascii_digit(name.last()) {
        lemma_digits_start_in_name(name.drop_last());
    }
}

/// Whether every character of `s` is an ASCII letter.
pub open spec fn all_alpha(s: Seq<char>) -> bool {
    forall|i: int| 0 <= i < s.len() ==> is_ascii_alpha(#[trigger] s[i])
}

/// The prefix and the index of a name of the simple family: the name
/// ends in digits that denote a `u32`, and before them stand one or
/// more ASCII letters and nothing else. Any other name is protected
/// and gives nothing.
pub open spec fn family_spec(name: Seq<char>) -> Option<(Seq<char>, u32)> {
    let k = digits_start(name);
    if k == 0 || k == name.len() || !all_alpha(name.take(k)) {
        None
    } else {
        match parse_u32_spec(name.skip(k), 10) {
            Some(index) => Some((name.take(k), index)),
            None => None,
        }
    }
}

/// What a family says, as text.
pub open spec fn family_view(family: IfFamily) -> Option<(Seq<char>, u32)> {
    match family {
        IfFamily::Simple { prefix, index } => Some((prefix@, index)),
        IfFamily::Protected => None,
    }
}

/// The start of the digits at the end of a name is the only place
/// with only digits behind it and no digit before it.
pub proof fn lemma_digits_start_unique(name: Seq<char>, k: int)
    requires
        0 <= k <= name.len(),
        forall|i: int| k <= i < name.len() ==> is_ascii_digit(#[trigger] name[i]),
        k > 0 ==> !is_ascii_digit(name[k - 1]),
    ensures
        digits_start(name) == k,
    decreases name.len(),
{
    if name.len() > 0 && is_ascii_digit(name.last()) {
        if k == name.len() {
            assert(false);
        }
        assert forall|i: int| k <= i < name.drop_last().len() implies is_ascii_digit(
            #[trigger] name.drop_last()[i],
        ) by {
            assert(name.drop_last()[i] == name[i]);
        }
        if k > 0 {
            assert(name.drop_last()[k - 1] == name[k - 1]);
        }
        lemma_digits_start_unique(name.drop_last(), k);
    } else if k < name.len() {
        assert(is_ascii_digit(name[name.len() - 1]));
    }
}

/// Tells the family of an interface name.
#[verifier::loop_isolation(false)]
pub fn parse_family(name: &str) -> (r: IfFamily)
    ensures
        family_view(r) == family_spec(name@),
{
    let chars = to_chars(name);
    let mut i: usize = chars.len();
    assert(chars@.take(i as int) == chars@);
    while i > 0 && chars[i - 1] >= '0' && chars[i - 1] <= '9'
        invariant
            i <= chars.len(),
            forall|j: int| i <= j < chars.len() ==> is_ascii_digit(#[trigger] chars@[j]),
        decreases i,
    {
        i -= 1;
    }
    proof {
        lemma_digits_start_unique(chars@, i as int);
    }
    if i == 0 || i == chars.len() {
        return IfFamily::Protected;
    }
    let prefix = slice_chars(chars.as_slice(), 0, i);
    let suffix = slice_chars(chars.as_slice(), i, chars.len());
    assert(prefix@ == name@.take(i as int));
    assert(suffix@ == name@.skip(i as int));
    let mut j: usize = 0;
    while j < prefix.len()
        invariant
            j <= prefix.len(),
            forall|k: int| 0 <= k < j ==> is_ascii_alpha(#[trigger] prefix@[k]),
        decreases prefix.len() - j,
    {
        let c = prefix[j];
        if !((c >= 'a' && c <= 'z') || (c >= 'A' && c <= 'Z')) {
            assert(!is_ascii_alpha(prefix@[j as int]));
            return IfFamily::Protected;
        }
        j += 1;
    }
    match parse_u32(suffix.as_slice(), 10) {
        Some(index) => IfFamily::Simple { prefix: from_chars(prefix.as_slice()), index },
        None => IfFamily::Protected,
    }
}

/// The name that the primary interface is to have: the prefix of its
/// family with the index 0. A protected name gives nothing.
pub open spec fn desired_name_spec(current: Seq<char>) -> Option<Seq<char>> {
    match family_spec(current) {
        Some((prefix, _)) => Some(prefix.push('0')),
        None => None,
    }
}

/// Tells the name that the primary interface is to have.
pub fn desired_name_for_primary(current: &str) -> (r: Option<String>)
    ensures
        opt_view(r) == desired_name_spec(current@),
{
    match parse_family(current) {
        IfFamily::Simple { prefix, index } => {
            let mut out = to_chars(prefix.as_str());
            out.push('0');
            Some(from_chars(out.as_slice()))
        },
        IfFamily::Protected => None,
    }
}

/// The primary-name policy: the name of an interface once it is the
/// primary one.
pub open spec fn primary_name(current: Seq<char>) -> Seq<char> {
    match desired_name_spec(current) {
        Some(name) => name,
        None => current,
    }
}

/// One or more letters followed by `0` are a simple name with these
/// letters as its prefix and the index 0.
pub proof fn lemma_family_of_zero(prefix: Seq<char>)
    requires
        prefix.len() > 0,
        all_alpha(prefix),
    ensures
        family_spec(prefix.push('0')) == Some((prefix, 0u32)),
{
    let name = prefix.push('0');
    assert(is_ascii_digit('0'));
    assert forall|i: int| prefix.len() <= i < name.len() implies is_ascii_digit(
        #[trigger] name[i],
    ) by {}
    if prefix.len() > 0 {
        assert(is_ascii_alpha(prefix[prefix.len() - 1]));
        assert(name[prefix.len() - 1] == prefix[prefix.len() - 1]);
    }
    lemma_digits_start_unique(name, prefix.len() as int);
    assert(name.take(prefix.len() as int) == prefix);
    let digits = name.skip(prefix.len() as int);
    assert(digits == seq!['0']);
    assert(digits.drop_last() == Seq::<char>::empty());
    assert(crate::text::numeral_value(digits, 10) == 0) by {
        reveal_with_fuel(crate::text::numeral_value, 3);
    }
    assert(crate::text::unsigned_body(digits) == digits);
    assert(crate::text::is_digit(digits[0], 10));
}

/// Primary-name idempotence: applying the policy to its own result
/// changes nothing, and a protected name is left as it is.
pub proof fn lemma_primary_name_idempotent(current: Seq<char>)
    ensures
        primary_name(primary_name(current)) == primary_name(current),
        family_spec(current) is None ==> primary_name(current) == current,
{
    match family_spec(current) {
        Some((prefix, _)) => {
            lemma_digits_start_in_name(current);
            assert(prefix == current.take(digits_start(current)));
            lemma_family_of_zero(prefix);
        },
        None => {},
    }
}

/// The index of the first interface named `name`, or the number of
/// interfaces.
pub open spec fn index_of_name(interfaces: Seq<InterfaceInfo>, name: Seq<char>) -> int
    decreases interfaces.len(),
{
    if interfaces.len() == 0 {
        0
    } else if interfaces[0].name@ == name {
        0
    } else {
        1 + index_of_name(interfaces.skip(1), name)
    }
}

/// Finds the first interface that has the name `name`.
#[verifier::loop_isolation(false)]
pub fn name_in_use<'a>(interfaces: &'a [InterfaceInfo], name: &str) -> (r: Option<
    &'a InterfaceInfo,
>)
    ensures
        match r {
            Some(i) => index_of_name(interfaces@, name@) < interfaces@.len() && *i
                == interfaces@[index_of_name(interfaces@, name@)],
            None => index_of_name(interfaces@, name@) == interfaces@.len(),
        },
{
    let wanted = to_chars(name);
    let mut i: usize = 0;
    assert(interfaces@.skip(0) == interfaces@);
    while i < interfaces.len()
        invariant
            i <= interfaces.len(),
            index_of_name(interfaces@, name@) == i + index_of_name(
                interfaces@.skip(i as int),
                name@,
            ),
        decreases interfaces.len() - i,
    {
        let have = to_chars(interfaces[i].name.as_str());
        assert(interfaces@.skip(i as int)[0] == interfaces@[i as int]);
        if same_chars(have.as_slice(), wanted.as_slice()) {
            return Some(&interfaces[i]);
        }
        assert(interfaces@.skip(i as int).skip(1) == interfaces@.skip(i + 1));
        i += 1;
    }
    None
}

/// The index of the first interface with the hardware address that
/// `target_mac` writes, or the number of interfaces.
pub open spec fn index_of_mac(interfaces: Seq<InterfaceInfo>, target_mac: Seq<char>) -> int
    decreases interfaces.len(),
{
    if interfaces.len() == 0 {
        0
    } else if interfaces[0].mac is Some && mac_text(interfaces[0].mac->0@) == target_mac {
        0
    } else {
        1 + index_of_mac(interfaces.skip(1), target_mac)
    }
}

/// Finds the first interface with the hardware address that
/// `target_mac` writes.
#[verifier::loop_isolation(false)]
pub fn find_by_mac(interfaces: &[InterfaceInfo], target_mac: &str) -> (r: Option<InterfaceInfo>)
    ensures
        match r {
            Some(i) => index_of_mac(interfaces@, target_mac@) < interfaces@.len() && i
                == interfaces@[index_of_mac(interfaces@, target_mac@)],
            None => index_of_mac(interfaces@, target_mac@) == interfaces@.len(),
        },
{
    let wanted = to_chars(target_mac);
    let mut i: usize = 0;
    assert(interfaces@.skip(0) == interfaces@);
    while i < interfaces.len()
        invariant
            i <= interfaces.len(),
            index_of_mac(interfaces@, target_mac@) == i + index_of_mac(
                interfaces@.skip(i as int),
                target_mac@,
            ),
        decreases interfaces.len() - i,
    {
        assert(interfaces@.skip(i as int)[0] == interfaces@[i as int]);
        let hit = match interfaces[i].mac {
            Some(mac) => {
                let text = mac_to_string(mac);
                same_chars(to_chars(text.as_str()).as_slice(), wanted.as_slice())
            },
            None => false,
        };
        if hit {
            return Some(interfaces[i].clone());
        }
        assert(interfaces@.skip(i as int).skip(1) == interfaces@.skip(i + 1));
        i += 1;
    }
    None
}

/// The greatest index remembered for a family.
#[derive(Debug, PartialEq, Eq)]
pub struct FamilyIndex {
    pub family: String,
    pub index: u32,
}

/// The index that the name of an interface has in the family with the
/// prefix `prefix`: that of its own family, where this is the family.
/// A protected name has none.
pub open spec fn index_in_family(name: Seq<char>, prefix: Seq<char>) -> Option<u32> {
    match family_spec(name) {
        Some((family, index)) => if family == prefix {
            Some(index)
        } else {
            None
        },
        None => None,
    }
}

/// The greatest index of the family among the first `n` interfaces, 0
/// where none of them belongs to it.
pub open spec fn max_present(interfaces: Seq<InterfaceInfo>, prefix: Seq<char>, n: nat) -> u32
    decreases n,
{
    if n == 0 {
        0
    } else {
        let before = max_present(interfaces, prefix, (n - 1) as nat);
        match index_in_family(interfaces[n - 1].name@, prefix) {
            Some(k) => if k > before {
                k
            } else {
                before
            },
            None => before,
        }
    }
}

/// The greatest index remembered for the family among the first `n`
/// entries, 0 where none of them is about it.
pub open spec fn max_remembered(indices: Seq<FamilyIndex>, prefix: Seq<char>, n: nat) -> u32
    decreases n,
{
    if n == 0 {
        0
    } else {
        let before = max_remembered(indices, prefix, (n - 1) as nat);
        if indices[n - 1].family@ == prefix && indices[n - 1].index > before {
            indices[n - 1].index
        } else {
            before
        }
    }
}

/// The index for an interface that has to make room in its family: one
/// more than the greatest index that is in use or remembered, as far as
/// a `u32` goes.
pub open spec fn next_index_spec(
    interfaces: Seq<InterfaceInfo>,
    prefix: Seq<char>,
    indices: Seq<FamilyIndex>,
) -> u32 {
    let present = max_present(interfaces, prefix, interfaces.len());
    let remembered = max_remembered(indices, prefix, indices.len());
    let top = if present > remembered {
        present
    } else {
        remembered
    };
    if top < u32::MAX {
        (top + 1) as u32
    } else {
        u32::MAX
    }
}

/// One or more letters followed by the decimal numeral of `index` are
/// a simple name with these letters as its prefix and that index.
pub proof fn lemma_family_of_index(prefix: Seq<char>, index: u32)
    requires
        prefix.len() > 0,
        all_alpha(prefix),
    ensures
        family_spec(prefix + decimal(index as nat)) == Some((prefix, index)),
{
    let digits = decimal(index as nat);
    let name = prefix + digits;
    crate::text::lemma_decimal_value(index as nat);
    assert forall|i: int| prefix.len() <= i < name.len() implies is_ascii_digit(
        #[trigger] name[i],
    ) by {
        assert(name[i] == digits[i - prefix.len()]);
        assert(crate::text::is_digit(digits[i - prefix.len()], 10));
        assert('9' as int == '0' as int + 9);
    }
    assert(is_ascii_alpha(prefix[prefix.len() - 1]));
    assert(name[prefix.len() - 1] == prefix[prefix.len() - 1]);
    lemma_digits_start_unique(name, prefix.len() as int);
    assert(name.take(prefix.len() as int) == prefix);
    assert(name.skip(prefix.len() as int) == digits);
    assert(crate::text::is_digit(digits[0], 10));
    assert(crate::text::unsigned_body(digits) == digits);
}

/// The greatest index of a family among the first `n` interfaces is no
/// smaller than the index of any of them.
pub proof fn lemma_max_present_covers(
    interfaces: Seq<InterfaceInfo>,
    prefix: Seq<char>,
    n: nat,
    i: int,
)
    requires
        0 <= i < n <= interfaces.len(),
    ensures
        match index_in_family(interfaces[i].name@, prefix) {
            Some(k) => k <= max_present(interfaces, prefix, n),
            None => true,
        },
    decreases n,
{
    if i < n - 1 {
        lemma_max_present_covers(interfaces, prefix, (n - 1) as nat, i);
    }
}

/// The index picked for an interface that makes room in a family is
/// free: as long as no index has reached the greatest `u32`, no
/// interface has the name made of the prefix and that index.
pub proof fn lemma_next_index_unused(
    interfaces: Seq<InterfaceInfo>,
    prefix: Seq<char>,
    indices: Seq<FamilyIndex>,
    i: int,
)
    requires
        prefix.len() > 0,
        all_alpha(prefix),
        max_present(interfaces, prefix, interfaces.len()) < u32::MAX,
        max_remembered(indices, prefix, indices.len()) < u32::MAX,
        0 <= i < interfaces.len(),
    ensures
        next_index_spec(interfaces, prefix, indices) >= 1,
        next_index_spec(interfaces, prefix, indices) > max_present(
            interfaces,
            prefix,
            interfaces.len(),
        ),
        next_index_spec(interfaces, prefix, indices) > max_remembered(
            indices,
            prefix,
            indices.len(),
        ),
        interfaces[i].name@ != prefix + decimal(
            next_index_spec(interfaces, prefix, indices) as nat,
        ),
{
    let next = next_index_spec(interfaces, prefix, indices);
    lemma_family_of_index(prefix, next);
    lemma_max_present_covers(interfaces, prefix, interfaces.len(), i);
}

/// Picks the index for an interface that has to make room in the
/// family with the prefix `prefix`.
#[verifier::loop_isolation(false)]
pub fn next_family_index(interfaces: &[InterfaceInfo], prefix: &str, indices: &Vec<FamilyIndex>) -> (r:
    u32)
    ensures
        r == next_index_spec(interfaces@, prefix@, indices@),
{
    let p = to_chars(prefix);
    let mut max_idx: u32 = 0;
    let mut i: usize = 0;
    while i < interfaces.len()
        invariant
            i <= interfaces.len(),
            max_idx == max_present(interfaces@, prefix@, i as nat),
        decreases interfaces.len() - i,
    {
        match parse_family(interfaces[i].name.as_str()) {
            IfFamily::Simple { prefix: family, index } => {
                let have = to_chars(family.as_str());
                if same_chars(have.as_slice(), p.as_slice()) && index > max_idx {
                    max_idx = index;
                }
            },
            IfFamily::Protected => {},
        }
        i += 1;
    }
    let mut remembered: u32 = 0;
    let mut j: usize = 0;
    while j < indices.len()
        invariant
            j <= indices.len(),
            remembered == max_remembered(indices@, prefix@, j as nat),
        decreases indices.len() - j,
    {
        let family = to_chars(indices[j].family.as_str());
        if same_chars(family.as_slice(), p.as_slice()) && indices[j].index > remembered {
            remembered = indices[j].index;
        }
        j += 1;
    }
    if remembered > max_idx {
        max_idx = remembered;
    }
    if max_idx < u32::MAX {
        max_idx + 1
    } else {
        u32::MAX
    }
}

/// One renaming of an interface.
#[derive(Debug, PartialEq, Eq)]
pub struct Rename {
    pub ifindex: u32,
    pub new_name: String,
}

/// What a renaming says, as text.
pub open spec fn rename_views(plan: Seq<Rename>) -> Seq<(u32, Seq<char>)> {
    Seq::new(plan.len(), |i: int| (plan[i].ifindex, plan[i].new_name@))
}

/// The renamings that give the interface `primary_index` the name
/// `desired`. Where no interface has the name, the interface is
/// renamed. Where it has the name itself, nothing is done. Where
/// another interface has it, that one moves first to the next free
/// index of the family; a protected name cannot be moved.
pub open spec fn rename_spec(
    interfaces: Seq<InterfaceInfo>,
    primary_index: u32,
    desired: Seq<char>,
    indices: Seq<FamilyIndex>,
) -> Result<Seq<(u32, Seq<char>)>, NetError> {
    let k = index_of_name(interfaces, desired);
    if k >= interfaces.len() {
        Ok(seq![(primary_index, desired)])
    } else if interfaces[k].ifindex == primary_index {
        Ok(Seq::empty())
    } else {
        match family_spec(desired) {
            Some((prefix, _)) => Ok(
                seq![
                    (
                        interfaces[k].ifindex,
                        prefix + decimal(next_index_spec(interfaces, prefix, indices) as nat),
                    ),
                    (primary_index, desired),
                ],
            ),
            None => Err(NetError::ProtectedName),
        }
    }
}

/// Plans the renamings that give the interface `primary_index` the
/// name `desired`.
pub fn rename_interface_collision(
    interfaces: &[InterfaceInfo],
    primary_index: u32,
    desired: &str,
    indices: &Vec<FamilyIndex>,
) -> (r: Result<Vec<Rename>, NetError>)
    ensures
        match r {
            Ok(plan) => rename_spec(interfaces@, primary_index, desired@, indices@) == Ok::<
                Seq<(u32, Seq<char>)>,
                NetError,
            >(rename_views(plan@)),
            Err(e) => rename_spec(interfaces@, primary_index, desired@, indices@) == Err::<
                Seq<(u32, Seq<char>)>,
                NetError,
            >(e),
        },
{
    let mut plan: Vec<Rename> = Vec::new();
    match name_in_use(interfaces, desired) {
        Some(existing) => {
            if existing.ifindex == primary_index {
                assert(rename_views(plan@) == Seq::<(u32, Seq<char>)>::empty());
                return Ok(plan);
            }
            // Move the interface that has the name out of the way first.
            match parse_family(desired) {
                IfFamily::Simple { prefix, index } => {
                    let n = next_family_index(interfaces, prefix.as_str(), indices);
                    let mut name = to_chars(prefix.as_str());
                    push_decimal(&mut name, n as u64);
                    plan.push(
                        Rename {
                            ifindex: existing.ifindex,
                            new_name: from_chars(name.as_slice()),
                        },
                    );
                    plan.push(
                        Rename {
                            ifindex: primary_index,
                            new_name: from_chars(to_chars(desired).as_slice()),
                        },
                    );
                    assert(rename_views(plan@) == seq![
                        (existing.ifindex, prefix@ + decimal(n as nat)),
                        (primary_index, desired@),
                    ]);
                    Ok(plan)
                },
                IfFamily::Protected => Err(NetError::ProtectedName),
            }
        },
        None => {
            plan.push(
                Rename {
                    ifindex: primary_index,
                    new_name: from_chars(to_chars(desired).as_slice()),
                },
            );
            assert(rename_views(plan@) == seq![(primary_index, desired@)]);
            Ok(plan)
        },
    }
}

/// The family and the index of an interface name as they are
/// remembered: a protected name has the family `protected` and no
/// index.
pub open spec fn family_info_spec(name: Seq<char>) -> (Seq<char>, Option<u32>) {
    match family_spec(name) {
        Some((prefix, index)) => (prefix, Some(index)),
        None => ("protected"@, None),
    }
}

/// Tells the family and the index of an interface name as they are
/// remembered.
pub fn family_info(name: &str) -> (r: (String, Option<u32>))
    ensures
        (r.0@, r.1) == family_info_spec(name@),
{
    match parse_family(name) {
        IfFamily::Simple { prefix, index } => (prefix, Some(index)),
        IfFamily::Protected => (from_chars(to_chars("protected").as_slice()), None),
    }
}

/// The kinds of link that the kernel tells apart.
#[derive(Clone, Copy, Debug, PartialEq, Eq, Structural)]
pub enum InfoKind {
    Dummy,
    Ifb,
    Bridge,
    Tun,
    Nlmon,
    Vlan,
    Veth,
    Vxlan,
    Bond,
    IpVlan,
    IpVtap,
    MacVlan,
    MacVtap,
    GreTap,
    GreTap6,
    IpIp,
    Ip6Tnl,
    SitTun,
    GreTun,
    GreTun6,
    Vti,
    Vrf,
    Gtp,
    Wireguard,
    Xfrm,
    MacSec,
    Hsr,
    Geneve,
    Netkit,
    /// A kind that the kernel names in a way of its own.
    Other,
    /// Any further kind that has a name: none of them is virtual.
    Unlisted,
}

/// Whether a link of this kind is virtual, so that the machine is never
/// bootstrapped through it: pairs, bridges, tunnels and the like, and
/// every kind that the kernel names in a way of its own. The tap forms
/// of the IP and MAC VLANs and the IPv6 forms of the GRE tunnels count
/// with their kin.
pub open spec fn virtual_kind(kind: InfoKind) -> bool {
    match kind {
        InfoKind::Veth => true,
        InfoKind::Vlan => true,
        InfoKind::Bridge => true,
        InfoKind::IpVlan => true,
        InfoKind::IpVtap => true,
        InfoKind::MacVlan => true,
        InfoKind::MacVtap => true,
        InfoKind::GreTap => true,
        InfoKind::GreTap6 => true,
        InfoKind::IpIp => true,
        InfoKind::Ip6Tnl => true,
        InfoKind::SitTun => true,
        InfoKind::GreTun => true,
        InfoKind::GreTun6 => true,
        InfoKind::Vti => true,
        InfoKind::Vrf => true,
        InfoKind::Gtp => true,
        InfoKind::Wireguard => true,
        InfoKind::Xfrm => true,
        InfoKind::MacSec => true,
        InfoKind::Hsr => true,
        InfoKind::Geneve => true,
        InfoKind::Netkit => true,
        InfoKind::Other => true,
        _ => false,
    }
}

/// Tells whether a link of this kind is virtual.
pub fn is_virtual_kind(kind: &InfoKind) -> (r: bool)
    ensures
        r == virtual_kind(*kind),
{
    match kind {
        InfoKind::Veth => true,
        InfoKind::Vlan => true,
        InfoKind::Bridge => true,
        InfoKind::IpVlan => true,
        InfoKind::IpVtap => true,
        InfoKind::MacVlan => true,
        InfoKind::MacVtap => true,
        InfoKind::GreTap => true,
        InfoKind::GreTap6 => true,
        InfoKind::IpIp => true,
        InfoKind::Ip6Tnl => true,
        InfoKind::SitTun => true,
        InfoKind::GreTun => true,
        InfoKind::GreTun6 => true,
        InfoKind::Vti => true,
        InfoKind::Vrf => true,
        InfoKind::Gtp => true,
        InfoKind::Wireguard => true,
        InfoKind::Xfrm => true,
        InfoKind::MacSec => true,
        InfoKind::Hsr => true,
        InfoKind::Geneve => true,
        InfoKind::Netkit => true,
        InfoKind::Other => true,
        _ => false,
    }
}

/// What the kernel says of a link, as far as it matters here.
#[derive(Debug)]
pub enum LinkAttribute {
    IfName(String),
    Address(Vec<u8>),
    /// The kinds that the information about the link names.
    LinkInfo(Vec<InfoKind>),
    Carrier(u8),
    Other,
}

/// What is known of an interface after some of the attributes of its
/// link.
pub struct Extract {
    pub name: Seq<char>,
    pub mac: Option<Seq<u8>>,
    pub is_virtual: bool,
}

/// What is known after one more attribute: the last name counts, the
/// last address of six bytes, and the first kind of the last
/// information that names one.
pub open spec fn extract_step(known: Extract, attr: LinkAttribute) -> Extract {
    match attr {
        LinkAttribute::IfName(n) => Extract { name: n@, ..known },
        LinkAttribute::Address(a) => if a@.len() == 6 {
            Extract { mac: Some(a@), ..known }
        } else {
            known
        },
        LinkAttribute::LinkInfo(kinds) => if kinds@.len() > 0 {
            Extract { is_virtual: virtual_kind(kinds@[0]), ..known }
        } else {
            known
        },
        _ => known,
    }
}

/// What is known after the first `n` attributes.
pub open spec fn extract_upto(attrs: Seq<LinkAttribute>, n: nat) -> Extract
    decreases n,
{
    if n == 0 {
        Extract { name: Seq::empty(), mac: None, is_virtual: false }
    } else {
        extract_step(extract_upto(attrs, (n - 1) as nat), attrs[n - 1])
    }
}

/// What an interface says, in the terms of `Extract`.
pub open spec fn interface_view(i: InterfaceInfo) -> Extract {
    Extract {
        name: i.name@,
        mac: match i.mac {
            Some(m) => Some(m@),
            None => None,
        },
        is_virtual: i.is_virtual,
    }
}

/// Reads an interface from the index and the attributes of its link.
#[verifier::loop_isolation(false)]
pub fn extract_interface(ifindex: u32, attributes: &Vec<LinkAttribute>) -> (r: InterfaceInfo)
    ensures
        r.ifindex == ifindex,
        interface_view(r) == extract_upto(attributes@, attributes@.len()),
{
    let mut name = String::new();
    let mut mac: Option<[u8; 6]> = None;
    let mut is_virtual = false;
    let mut i: usize = 0;
    while i < attributes.len()
        invariant
            i <= attributes.len(),
            interface_view(InterfaceInfo { name, mac, is_virtual, ifindex }) == extract_upto(
                attributes@,
                i as nat,
            ),
        decreases attributes.len() - i,
    {
        match &attributes[i] {
            LinkAttribute::IfName(n) => {
                name = n.clone();
            },
            LinkAttribute::Address(addr) => {
                if addr.len() == 6 {
                    let m: [u8; 6] = [addr[0], addr[1], addr[2], addr[3], addr[4], addr[5]];
                    assert(m@ == addr@);
                    mac = Some(m);
                }
            },
            LinkAttribute::LinkInfo(kinds) => {
                if kinds.len() > 0 {
                    is_virtual = is_virtual_kind(&kinds[0]);
                }
            },
            _ => {},
        }
        i += 1;
    }
    InterfaceInfo { name, mac, is_virtual, ifindex }
}


/// Whether an interface of this name is left out when the machine looks
/// for a way into the network: loopback, tunnels, bridges and the like
/// go by the start of their name.
pub open spec fn ignored_name(name: Seq<char>) -> bool {
    is_prefix("lo"@, name) || is_prefix("veth"@, name) || is_prefix("docker"@, name) || is_prefix(
        "br"@,
        name,
    ) || is_prefix("virbr"@, name) || is_prefix("vlan"@, name) || is_prefix("tun"@, name)
        || is_prefix("tap"@, name) || is_prefix("macvtap"@, name) || is_prefix("bond"@, name)
        || is_prefix("team"@, name) || is_prefix("wg"@, name) || is_prefix("ppp"@, name)
        || is_prefix("dummy"@, name)
}

fn has_prefix(name: &Vec<char>, prefix: &str) -> (r: bool)
    ensures
        r == is_prefix(prefix@, name@),
{
    starts_with(name.as_slice(), to_chars(prefix).as_slice())
}

/// Tells whether an interface of this name is left out of the
/// bootstrap.
pub fn is_ignored_name(name: &str) -> (r: bool)
    ensures
        r == ignored_name(name@),
{
    let n = to_chars(name);
    has_prefix(&n, "lo") || has_prefix(&n, "veth") || has_prefix(&n, "docker") || has_prefix(
        &n,
        "br",
    ) || has_prefix(&n, "virbr") || has_prefix(&n, "vlan") || has_prefix(&n, "tun") || has_prefix(
        &n,
        "tap",
    ) || has_prefix(&n, "macvtap") || has_prefix(&n, "bond") || has_prefix(&n, "team")
        || has_prefix(&n, "wg") || has_prefix(&n, "ppp") || has_prefix(&n, "dummy")
}

/// Whether the machine may be bootstrapped through an interface: it is
/// neither virtual nor left out by its name.
pub open spec fn is_candidate(i: InterfaceInfo) -> bool {
    !i.is_virtual && !ignored_name(i.name@)
}

/// `sorted` with `x` put behind the last interface whose index is not
/// greater than its own.
pub open spec fn insert_by_index(sorted: Seq<InterfaceInfo>, x: InterfaceInfo) -> Seq<InterfaceInfo>
    decreases sorted.len(),
{
    if sorted.len() == 0 || sorted.last().ifindex <= x.ifindex {
        sorted.push(x)
    } else {
        insert_by_index(sorted.drop_last(), x).push(sorted.last())
    }
}

/// The candidates among the first `n` interfaces, in ascending order of
/// their index; candidates of the same index keep their order.
pub open spec fn candidates_upto(interfaces: Seq<InterfaceInfo>, n: nat) -> Seq<InterfaceInfo>
    decreases n,
{
    if n == 0 {
        Seq::empty()
    } else {
        let before = candidates_upto(interfaces, (n - 1) as nat);
        if is_candidate(interfaces[n - 1]) {
            insert_by_index(before, interfaces[n - 1])
        } else {
            before
        }
    }
}

/// Whether the indices of `s` never fall.
pub open spec fn ascending(s: Seq<InterfaceInfo>) -> bool {
    forall|i: int, j: int| 0 <= i < j < s.len() ==> (#[trigger] s[i]).ifindex <= (#[trigger] s[j]).ifindex
}

/// Putting an interface into an ascending list keeps the list
/// ascending, makes it one longer, and adds nothing but the interface.
pub proof fn lemma_insert_by_index(sorted: Seq<InterfaceInfo>, x: InterfaceInfo)
    requires
        ascending(sorted),
    ensures
        ascending(insert_by_index(sorted, x)),
        insert_by_index(sorted, x).len() == sorted.len() + 1,
        forall|k: int|
            0 <= k < insert_by_index(sorted, x).len() ==> (#[trigger] insert_by_index(sorted, x)[k])
                == x || sorted.contains(insert_by_index(sorted, x)[k]),
    decreases sorted.len(),
{
    let r = insert_by_index(sorted, x);
    if sorted.len() == 0 || sorted.last().ifindex <= x.ifindex {
        assert forall|i: int, j: int| 0 <= i < j < r.len() implies (#[trigger] r[i]).ifindex <= (
        #[trigger] r[j]).ifindex by {
            if j == sorted.len() {
                assert(r[i] == sorted[i]);
                if i < sorted.len() - 1 {
                    assert(sorted[i].ifindex <= sorted[sorted.len() - 1].ifindex);
                }
            } else {
                assert(r[i] == sorted[i] && r[j] == sorted[j]);
            }
        }
        assert forall|k: int| 0 <= k < r.len() implies (#[trigger] r[k]) == x || sorted.contains(
            r[k],
        ) by {
            if k < sorted.len() {
                assert(r[k] == sorted[k]);
            }
        }
    } else {
        let front = sorted.drop_last();
        let last = sorted.last();
        assert forall|i: int, j: int| 0 <= i < j < front.len() implies (#[trigger] front[i]).ifindex
            <= (#[trigger] front[j]).ifindex by {
            assert(front[i] == sorted[i] && front[j] == sorted[j]);
        }
        lemma_insert_by_index(front, x);
        let inner = insert_by_index(front, x);
        assert forall|k: int| 0 <= k < inner.len() implies (#[trigger] inner[k]).ifindex
            <= last.ifindex by {
            if inner[k] != x {
                assert(front.contains(inner[k]));
                let m = choose|m: int| 0 <= m < front.len() && front[m] == inner[k];
                assert(sorted[m] == front[m]);
                assert(sorted[m].ifindex <= sorted[sorted.len() - 1].ifindex);
            }
        }
        assert forall|i: int, j: int| 0 <= i < j < r.len() implies (#[trigger] r[i]).ifindex <= (
        #[trigger] r[j]).ifindex by {
            if j == inner.len() {
                assert(r[i] == inner[i]);
            } else {
                assert(r[i] == inner[i] && r[j] == inner[j]);
            }
        }
        assert forall|k: int| 0 <= k < r.len() implies (#[trigger] r[k]) == x || sorted.contains(
            r[k],
        ) by {
            if k < inner.len() {
                assert(r[k] == inner[k]);
                if inner[k] != x {
                    let m = choose|m: int| 0 <= m < front.len() && front[m] == inner[k];
                    assert(sorted[m] == front[m]);
                }
            } else {
                assert(r[k] == sorted[sorted.len() - 1]);
            }
        }
    }
}

/// The candidates for the bootstrap are in ascending order of their
/// index.
pub proof fn lemma_candidates_ascending(interfaces: Seq<InterfaceInfo>, n: nat)
    requires
        n <= interfaces.len(),
    ensures
        ascending(candidates_upto(interfaces, n)),
    decreases n,
{
    if n > 0 {
        lemma_candidates_ascending(interfaces, (n - 1) as nat);
        if is_candidate(interfaces[n - 1]) {
            lemma_insert_by_index(candidates_upto(interfaces, (n - 1) as nat), interfaces[n - 1]);
        }
    }
}

/// Putting an interface into a list loses nothing: the interface and
/// everything that was in the list are in the result.
pub proof fn lemma_insert_keeps(sorted: Seq<InterfaceInfo>, x: InterfaceInfo)
    ensures
        insert_by_index(sorted, x).contains(x),
        forall|m: int|
            0 <= m < sorted.len() ==> insert_by_index(sorted, x).contains(#[trigger] sorted[m]),
    decreases sorted.len(),
{
    let r = insert_by_index(sorted, x);
    if sorted.len() == 0 || sorted.last().ifindex <= x.ifindex {
        assert(r[sorted.len() as int] == x);
        assert forall|m: int| 0 <= m < sorted.len() implies r.contains(#[trigger] sorted[m]) by {
            assert(r[m] == sorted[m]);
        }
    } else {
        let front = sorted.drop_last();
        lemma_insert_keeps(front, x);
        let inner = insert_by_index(front, x);
        let k = choose|k: int| 0 <= k < inner.len() && inner[k] == x;
        assert(r[k] == x);
        assert forall|m: int| 0 <= m < sorted.len() implies r.contains(#[trigger] sorted[m]) by {
            if m < front.len() {
                assert(front[m] == sorted[m]);
                assert(inner.contains(front[m]));
                let j = choose|j: int| 0 <= j < inner.len() && inner[j] == front[m];
                assert(r[j] == sorted[m]);
            } else {
                assert(r[inner.len() as int] == sorted[m]);
            }
        }
    }
}

/// The number of candidates among the first `n` interfaces.
pub open spec fn count_candidates(interfaces: Seq<InterfaceInfo>, n: nat) -> nat
    decreases n,
{
    if n == 0 {
        0
    } else {
        count_candidates(interfaces, (n - 1) as nat) + if is_candidate(interfaces[n - 1]) {
            1nat
        } else {
            0nat
        }
    }
}

/// The candidates for the bootstrap are exactly the interfaces through
/// which the machine may be bootstrapped: as many as there are, each of
/// them in the list, and nothing else.
pub proof fn lemma_candidates_complete(interfaces: Seq<InterfaceInfo>, n: nat)
    requires
        n <= interfaces.len(),
    ensures
        candidates_upto(interfaces, n).len() == count_candidates(interfaces, n),
        forall|i: int|
            0 <= i < n && is_candidate(#[trigger] interfaces[i]) ==> candidates_upto(
                interfaces,
                n,
            ).contains(interfaces[i]),
        forall|k: int|
            0 <= k < candidates_upto(interfaces, n).len() ==> is_candidate(
                #[trigger] candidates_upto(interfaces, n)[k],
            ) && exists|i: int|
                0 <= i < n && interfaces[i] == candidates_upto(interfaces, n)[k],
    decreases n,
{
    if n > 0 {
        let before = candidates_upto(interfaces, (n - 1) as nat);
        let now = candidates_upto(interfaces, n);
        let x = interfaces[n - 1];
        lemma_candidates_complete(interfaces, (n - 1) as nat);
        lemma_candidates_ascending(interfaces, (n - 1) as nat);
        if is_candidate(x) {
            lemma_insert_by_index(before, x);
            lemma_insert_keeps(before, x);
            assert forall|i: int| 0 <= i < n && is_candidate(
                #[trigger] interfaces[i],
            ) implies now.contains(interfaces[i]) by {
                if i < n - 1 {
                    assert(before.contains(interfaces[i]));
                    let m = choose|m: int| 0 <= m < before.len() && before[m] == interfaces[i];
                    assert(now.contains(before[m]));
                }
            }
            assert forall|k: int| 0 <= k < now.len() implies is_candidate(#[trigger] now[k])
                && exists|i: int| 0 <= i < n && interfaces[i] == now[k] by {
                if now[k] == x {
                    assert(interfaces[n - 1] == now[k]);
                } else {
                    assert(before.contains(now[k]));
                    let m = choose|m: int| 0 <= m < before.len() && before[m] == now[k];
                    assert(is_candidate(before[m]));
                    let i = choose|i: int| 0 <= i < n - 1 && interfaces[i] == before[m];
                    assert(interfaces[i] == now[k]);
                }
            }
        } else {
            assert forall|k: int| 0 <= k < now.len() implies is_candidate(#[trigger] now[k])
                && exists|i: int| 0 <= i < n && interfaces[i] == now[k] by {
                let i = choose|i: int| 0 <= i < n - 1 && interfaces[i] == before[k];
                assert(interfaces[i] == now[k]);
            }
        }
    }
}

/// Puts `x` into the list at its place.
fn insert_sorted(sorted: &mut Vec<InterfaceInfo>, x: InterfaceInfo)
    ensures
        final(sorted)@ == insert_by_index(old(sorted)@, x),
{
    let mut k: usize = sorted.len();
    assert(sorted@.take(k as int) == sorted@);
    while k > 0 && sorted[k - 1].ifindex > x.ifindex
        invariant
            k <= sorted.len(),
            sorted@ == old(sorted)@,
            insert_by_index(sorted@, x) == insert_by_index(sorted@.take(k as int), x)
                + sorted@.skip(k as int),
        decreases k,
    {
        let ghost head = sorted@.take(k as int);
        assert(head.drop_last() == sorted@.take(k - 1));
        assert(head.last() == sorted@[k - 1]);
        assert(insert_by_index(head, x) == insert_by_index(head.drop_last(), x).push(head.last()));
        assert(insert_by_index(head.drop_last(), x).push(head.last()) + sorted@.skip(k as int)
            == insert_by_index(head.drop_last(), x) + sorted@.skip(k - 1));
        k -= 1;
    }
    let ghost head = sorted@.take(k as int);
    assert(insert_by_index(head, x) == head.push(x));
    let ghost before = sorted@;
    sorted.insert(k, x);
    assert(sorted@ == head.push(x) + before.skip(k as int));
}

/// Lists the interfaces through which the machine may be bootstrapped,
/// in the order in which they are tried: ascending by index, in the
/// hope that the first is the primary one already.
#[verifier::loop_isolation(false)]
pub fn bootstrap_candidates(interfaces: &[InterfaceInfo]) -> (r: Vec<InterfaceInfo>)
    ensures
        r@ == candidates_upto(interfaces@, interfaces@.len()),
        ascending(r@),
{
    let mut out: Vec<InterfaceInfo> = Vec::new();
    let mut i: usize = 0;
    while i < interfaces.len()
        invariant
            i <= interfaces.len(),
            out@ == candidates_upto(interfaces@, i as nat),
        decreases interfaces.len() - i,
    {
        let interface = &interfaces[i];
        if !interface.is_virtual && !is_ignored_name(interface.name.as_str()) {
            insert_sorted(&mut out, interface.clone());
        }
        i += 1;
    }
    proof {
        lemma_candidates_ascending(interfaces@, interfaces@.len());
    }
    out
}

/// What the bootstrap does after an attempt on one candidate.
#[derive(Clone, Copy, Debug, PartialEq, Eq, Structural)]
pub enum Bootstrap {
    /// The machine is connected through this interface.
    Connected(u32),
    /// Try the next candidate.
    Next,
}

/// How far an attempt to connect through a candidate got.
#[derive(Clone, Copy, Debug, PartialEq, Eq, Structural)]
pub enum Attempt {
    LinkUpFailed,
    NoCarrier,
    DhcpFailed,
    Configured,
}

/// Decides what follows the attempt on one candidate: only an
/// interface that has a hardware address and got a lease connects the
/// machine.
pub fn establish_bootstrap_connectivity(candidate: &InterfaceInfo, attempt: Attempt) -> (r:
    Bootstrap)
    ensures
        r == if attempt == Attempt::Configured && candidate.mac is Some {
            Bootstrap::Connected(candidate.ifindex)
        } else {
            Bootstrap::Next
        },
{
    match attempt {
        Attempt::Configured => if candidate.mac.is_some() {
            Bootstrap::Connected(candidate.ifindex)
        } else {
            Bootstrap::Next
        },
        _ => Bootstrap::Next,
    }
}

/// An address of an interface.
#[derive(Clone, Copy, Debug, PartialEq, Eq)]
pub enum IpAddress {
    V4(Ipv4),
    V6([u8; 16]),
}

/// What the kernel reports of an address of an interface.
#[derive(Debug)]
pub struct AddressRecord {
    /// The address belongs to the IPv4 family.
    pub inet: bool,
    pub prefix_len: u8,
    /// The addresses among the attributes of the record.
    pub addresses: Vec<IpAddress>,
}

/// An attribute of a route.
#[derive(Clone, Copy, Debug, PartialEq, Eq)]
pub enum RouteAttribute {
    /// The interface through which the route leaves.
    Oif(u32),
    /// The IPv4 gateway of the route.
    Gateway(Ipv4),
    Other,
}

/// What the kernel reports of a route.
#[derive(Debug)]
pub struct RouteRecord {
    pub destination_prefix_length: u8,
    pub attributes: Vec<RouteAttribute>,
}

/// The index of the first IPv4 address among `addresses`, or their
/// number.
pub open spec fn first_v4(addresses: Seq<IpAddress>) -> int
    decreases addresses.len(),
{
    if addresses.len() == 0 {
        0
    } else if addresses[0] is V4 {
        0
    } else {
        1 + first_v4(addresses.skip(1))
    }
}

/// The address and the prefix of an interface according to the
/// records of its addresses: those of the first IPv4 record that holds
/// an IPv4 address.
pub open spec fn address_of(records: Seq<AddressRecord>) -> Option<(Ipv4, u8)>
    decreases records.len(),
{
    if records.len() == 0 {
        None
    } else {
        let k = first_v4(records[0].addresses@);
        if records[0].inet && k < records[0].addresses@.len() {
            Some((records[0].addresses@[k]->V4_0, records[0].prefix_len))
        } else {
            address_of(records.skip(1))
        }
    }
}

/// The interface and the gateway that the attributes of a route name:
/// the last of each counts.
pub open spec fn route_ends(attributes: Seq<RouteAttribute>, n: nat) -> (Option<u32>, Option<Ipv4>)
    decreases n,
{
    if n == 0 {
        (None, None)
    } else {
        let before = route_ends(attributes, (n - 1) as nat);
        match attributes[n - 1] {
            RouteAttribute::Oif(i) => (Some(i), before.1),
            RouteAttribute::Gateway(g) => (before.0, Some(g)),
            RouteAttribute::Other => before,
        }
    }
}

/// The gateway of the first default route that leaves through the
/// interface `ifindex`, if that route names one.
pub open spec fn gateway_of(routes: Seq<RouteRecord>, ifindex: u32) -> Option<Ipv4>
    decreases routes.len(),
{
    if routes.len() == 0 {
        None
    } else {
        let ends = route_ends(routes[0].attributes@, routes[0].attributes@.len());
        if routes[0].destination_prefix_length == 0 && ends.0 == Some(ifindex) {
            ends.1
        } else {
            gateway_of(routes.skip(1), ifindex)
        }
    }
}

#[verifier::loop_isolation(false)]
fn find_address(records: &Vec<AddressRecord>) -> (r: Option<(Ipv4, u8)>)
    ensures
        r == address_of(records@),
{
    let mut i: usize = 0;
    assert(records@.skip(0) == records@);
    while i < records.len()
        invariant
            i <= records.len(),
            address_of(records@) == address_of(records@.skip(i as int)),
        decreases records.len() - i,
    {
        let record = &records[i];
        assert(records@.skip(i as int)[0] == records@[i as int]);
        if record.inet {
            let mut k: usize = 0;
            assert(record.addresses@.skip(0) == record.addresses@);
            while k < record.addresses.len()
                invariant
                    k <= record.addresses.len(),
                    first_v4(record.addresses@) == k + first_v4(record.addresses@.skip(k as int)),
                decreases record.addresses.len() - k,
            {
                assert(record.addresses@.skip(k as int)[0] == record.addresses@[k as int]);
                match record.addresses[k] {
                    IpAddress::V4(a) => {
                        return Some((a, record.prefix_len));
                    },
                    IpAddress::V6(_) => {},
                }
                assert(record.addresses@.skip(k as int).skip(1) == record.addresses@.skip(k + 1));
                k += 1;
            }
        }
        assert(records@.skip(i as int).skip(1) == records@.skip(i + 1));
        i += 1;
    }
    None
}

#[verifier::loop_isolation(false)]
fn find_gateway(routes: &Vec<RouteRecord>, ifindex: u32) -> (r: Option<Ipv4>)
    ensures
        r == gateway_of(routes@, ifindex),
{
    let mut i: usize = 0;
    assert(routes@.skip(0) == routes@);
    while i < routes.len()
        invariant
            i <= routes.len(),
            gateway_of(routes@, ifindex) == gateway_of(routes@.skip(i as int), ifindex),
        decreases routes.len() - i,
    {
        let route = &routes[i];
        assert(routes@.skip(i as int)[0] == routes@[i as int]);
        let mut route_ifindex: Option<u32> = None;
        let mut route_gateway: Option<Ipv4> = None;
        let mut k: usize = 0;
        while k < route.attributes.len()
            invariant
                k <= route.attributes.len(),
                (route_ifindex, route_gateway) == route_ends(route.attributes@, k as nat),
            decreases route.attributes.len() - k,
        {
            match route.attributes[k] {
                RouteAttribute::Oif(idx) => {
                    route_ifindex = Some(idx);
                },
                RouteAttribute::Gateway(g) => {
                    route_gateway = Some(g);
                },
                RouteAttribute::Other => {},
            }
            k += 1;
        }
        if route.destination_prefix_length == 0 && route_ifindex == Some(ifindex) {
            return route_gateway;
        }
        assert(routes@.skip(i as int).skip(1) == routes@.skip(i + 1));
        i += 1;
    }
    None
}

/// Reads the address configuration of the interface `ifindex` from the
/// records of its addresses and from the routes of the machine: its
/// first IPv4 address with its prefix, and the gateway of the default
/// route that leaves through it.
pub fn get_interface_address_config(
    ifindex: u32,
    addresses: &Vec<AddressRecord>,
    routes: &Vec<RouteRecord>,
) -> (r: Result<AddressConfig, NetError>)
    ensures
        r == match address_of(addresses@) {
            None => Err::<AddressConfig, NetError>(NetError::NoAddress),
            Some((address, prefix_len)) => match gateway_of(routes@, ifindex) {
                None => Err(NetError::NoGateway),
                Some(gateway) => Ok(AddressConfig { address, prefix_len, gateway }),
            },
        },
{
    let (address, prefix_len) = match find_address(addresses) {
        Some(found) => found,
        None => {
            return Err(NetError::NoAddress);
        },
    };
    let gateway = match find_gateway(routes, ifindex) {
        Some(g) => g,
        None => {
            return Err(NetError::NoGateway);
        },
    };
    Ok(AddressConfig { address, prefix_len, gateway })
}

/// How the primary interface gets its address.
#[derive(Debug, PartialEq, Eq)]
pub enum DhcpPlan {
    /// Remove the default route and the addresses of the bootstrap
    /// interface, bring the primary up and run DHCP on it.
    FlushThenDhcp { bootstrap: u32, mac: [u8; 6] },
    /// Remove the default route and the addresses of the bootstrap
    /// interface, bring the primary up and keep what it has.
    FlushThenReuse { bootstrap: u32 },
    /// The machine was bootstrapped through the primary: keep what it
    /// has.
    Reuse,
    /// Bring the primary up and give it the lease of the last boot.
    UsePersisted(DhcpLease),
    /// Bring the primary up and run DHCP on it.
    Dhcp { mac: [u8; 6] },
}

/// Decides how the primary interface gets its address. After a
/// bootstrap through another interface that one is cleaned up and the
/// primary runs DHCP; after a bootstrap through the primary itself
/// nothing is left to do. Without a bootstrap the lease of the last
/// boot is used where there is one, and DHCP where there is none.
pub fn configure_primary_dhcp(
    primary: &InterfaceInfo,
    bootstrap_ifindex: Option<u32>,
    persisted: Option<DhcpLease>,
) -> (r: Result<DhcpPlan, NetError>)
    ensures
        r == match bootstrap_ifindex {
            Some(bootstrap) => if bootstrap == primary.ifindex {
                Ok::<DhcpPlan, NetError>(DhcpPlan::Reuse)
            } else {
                match primary.mac {
                    Some(mac) => Ok(DhcpPlan::FlushThenDhcp { bootstrap, mac }),
                    None => Ok(DhcpPlan::FlushThenReuse { bootstrap }),
                }
            },
            None => match persisted {
                Some(lease) => Ok(DhcpPlan::UsePersisted(lease)),
                None => match primary.mac {
                    Some(mac) => Ok(DhcpPlan::Dhcp { mac }),
                    None => Err(NetError::NoMac),
                },
            },
        },
{
    match bootstrap_ifindex {
        Some(bootstrap) => if bootstrap == primary.ifindex {
            Ok(DhcpPlan::Reuse)
        } else {
            match primary.mac {
                Some(mac) => Ok(DhcpPlan::FlushThenDhcp { bootstrap, mac }),
                None => Ok(DhcpPlan::FlushThenReuse { bootstrap }),
            }
        },
        None => match persisted {
            Some(lease) => Ok(DhcpPlan::UsePersisted(lease)),
            None => match primary.mac {
                Some(mac) => Ok(DhcpPlan::Dhcp { mac }),
                None => Err(NetError::NoMac),
            },
        },
    }
}

/// What the loopback interface still lacks.
#[derive(Clone, Copy, Debug, PartialEq, Eq, Structural)]
pub struct LoopbackPlan {
    pub ifindex: u32,
    /// Add `127.0.0.1/8`.
    pub add_v4: bool,
    /// Add `::1/128`.
    pub add_v6: bool,
}

/// The loopback address of IPv4.
pub open spec fn loopback_v4() -> IpAddress {
    IpAddress::V4([127u8, 0u8, 0u8, 1u8])
}

/// The loopback address of IPv6.
pub open spec fn loopback_v6() -> IpAddress {
    IpAddress::V6([0u8, 0u8, 0u8, 0u8, 0u8, 0u8, 0u8, 0u8, 0u8, 0u8, 0u8, 0u8, 0u8, 0u8, 0u8, 1u8])
}

/// Whether `addresses` holds an address equal to `wanted`.
pub open spec fn has_address(addresses: Seq<IpAddress>, wanted: Seq<u8>, v4: bool) -> bool {
    exists|i: int|
        0 <= i < addresses.len() && match #[trigger] addresses[i] {
            IpAddress::V4(a) => v4 && a@ == wanted,
            IpAddress::V6(a) => !v4 && a@ == wanted,
        }
}

fn same_bytes(a: &[u8], b: &[u8]) -> (r: bool)
    ensures
        r == (a@ == b@),
{
    if a.len() != b.len() {
        return false;
    }
    let mut i: usize = 0;
    while i < a.len()
        invariant
            a.len() == b.len(),
            i <= a.len(),
            forall|j: int| 0 <= j < i ==> a@[j] == b@[j],
        decreases a.len() - i,
    {
        if a[i] != b[i] {
            return false;
        }
        i += 1;
    }
    assert(a@ =~= b@);
    true
}

/// Tells what to do for the loopback interface, the first interface
/// named `lo`: it is brought up, and each of its two addresses is added
/// unless `addresses`, the addresses that it has, holds it already. No
/// such interface, nothing to do.
#[verifier::loop_isolation(false)]
pub fn ensure_loopback(interfaces: &[InterfaceInfo], addresses: &Vec<IpAddress>) -> (r: Option<
    LoopbackPlan,
>)
    ensures
        match r {
            Some(plan) => index_of_name(interfaces@, "lo"@) < interfaces@.len() && plan.ifindex
                == interfaces@[index_of_name(interfaces@, "lo"@)].ifindex && plan.add_v4
                == !has_address(addresses@, seq![127u8, 0u8, 0u8, 1u8], true) && plan.add_v6
                == !has_address(
                addresses@,
                seq![0u8, 0u8, 0u8, 0u8, 0u8, 0u8, 0u8, 0u8, 0u8, 0u8, 0u8, 0u8, 0u8, 0u8, 0u8, 1u8],
                false,
            ),
            None => index_of_name(interfaces@, "lo"@) == interfaces@.len(),
        },
{
    let lo = match name_in_use(interfaces, "lo") {
        Some(lo) => lo,
        None => {
            return None;
        },
    };
    let lo_v4: [u8; 4] = [127, 0, 0, 1];
    let lo_v6: [u8; 16] = [0, 0, 0, 0, 0, 0, 0, 0, 0, 0, 0, 0, 0, 0, 0, 1];
    assert(lo_v4@ =~= seq![127u8, 0u8, 0u8, 1u8]);
    assert(lo_v6@ =~= seq![
        0u8,
        0u8,
        0u8,
        0u8,
        0u8,
        0u8,
        0u8,
        0u8,
        0u8,
        0u8,
        0u8,
        0u8,
        0u8,
        0u8,
        0u8,
        1u8,
    ]);
    let mut have_v4 = false;
    let mut have_v6 = false;
    let mut i: usize = 0;
    while i < addresses.len()
        invariant
            i <= addresses.len(),
            have_v4 == has_address(addresses@.take(i as int), lo_v4@, true),
            have_v6 == has_address(addresses@.take(i as int), lo_v6@, false),
        decreases addresses.len() - i,
    {
        let ghost before = addresses@.take(i as int);
        let ghost now = addresses@.take(i + 1);
        assert(now == before.push(addresses@[i as int]));
        let (is_v4, is_v6) = match &addresses[i] {
            IpAddress::V4(a) => (same_bytes(a.as_slice(), lo_v4.as_slice()), false),
            IpAddress::V6(a) => (false, same_bytes(a.as_slice(), lo_v6.as_slice())),
        };
        proof {
            if has_address(before, lo_v4@, true) {
                let k = choose|k: int|
                    0 <= k < before.len() && match #[trigger] before[k] {
                        IpAddress::V4(a) => a@ == lo_v4@,
                        IpAddress::V6(a) => false,
                    };
                assert(now[k] == before[k]);
            }
            if has_address(before, lo_v6@, false) {
                let k = choose|k: int|
                    0 <= k < before.len() && match #[trigger] before[k] {
                        IpAddress::V4(a) => false,
                        IpAddress::V6(a) => a@ == lo_v6@,
                    };
                assert(now[k] == before[k]);
            }
            if is_v4 {
                assert(now[i as int] == addresses@[i as int]);
            }
            if is_v6 {
                assert(now[i as int] == addresses@[i as int]);
            }
            if has_address(now, lo_v4@, true) && !is_v4 {
                let k = choose|k: int|
                    0 <= k < now.len() && match #[trigger] now[k] {
                        IpAddress::V4(a) => a@ == lo_v4@,
                        IpAddress::V6(a) => false,
                    };
                assert(before[k] == now[k]);
            }
            if has_address(now, lo_v6@, false) && !is_v6 {
                let k = choose|k: int|
                    0 <= k < now.len() && match #[trigger] now[k] {
                        IpAddress::V4(a) => false,
                        IpAddress::V6(a) => a@ == lo_v6@,
                    };
                assert(before[k] == now[k]);
            }
        }
        if is_v4 {
            have_v4 = true;
        }
        if is_v6 {
            have_v6 = true;
        }
        i += 1;
    }
    assert(addresses@.take(addresses@.len() as int) == addresses@);
    Some(LoopbackPlan { ifindex: lo.ifindex, add_v4: !have_v4, add_v6: !have_v6 })
}

/// The milliseconds that the bootstrap waits for the carrier of a link.
pub const CARRIER_TIMEOUT_MS: u64 = 30000;

/// The longest wait between two looks at the carrier, in milliseconds.
pub const CARRIER_BACKOFF_CAP_MS: u64 = 500;

/// The milliseconds within which the network has to be set up.
pub const NETWORK_TIMEOUT_MS: u64 = 60000;

/// The longest wait between two attempts to set the network up, in
/// milliseconds.
pub const NETWORK_BACKOFF_CAP_MS: u64 = 2000;

/// The milliseconds that the machine waits for the instance metadata
/// service once it is connected.
pub const METADATA_TIMEOUT_MS: u64 = 10000;

/// Decides what follows one look at the carrier of a link: done when
/// it is there, else given up once `timeout_ms` has passed since the
/// first look.
pub fn wait_for_carrier(carrier: bool, elapsed_ms: u64, timeout_ms: u64) -> (r: Wait)
    ensures
        r == if carrier {
            Wait::Done
        } else if elapsed_ms >= timeout_ms {
            Wait::TimedOut
        } else {
            Wait::Retry
        },
{
    if carrier {
        Wait::Done
    } else if elapsed_ms >= timeout_ms {
        Wait::TimedOut
    } else {
        Wait::Retry
    }
}

/// Decides what follows a failed attempt to set the network up: the
/// attempts go on, with a backoff between them, until `timeout_ms` has
/// passed since the first.
pub fn initialize_network(succeeded: bool, elapsed_ms: u64, timeout_ms: u64) -> (r: Wait)
    ensures
        r == if succeeded {
            Wait::Done
        } else if elapsed_ms >= timeout_ms {
            Wait::TimedOut
        } else {
            Wait::Retry
        },
{
    if succeeded {
        Wait::Done
    } else if elapsed_ms >= timeout_ms {
        Wait::TimedOut
    } else {
        Wait::Retry
    }
}

/// Whether the attributes of a link show a carrier.
pub open spec fn carrier_spec(attributes: Seq<LinkAttribute>) -> bool {
    exists|i: int|
        0 <= i < attributes.len() && (#[trigger] attributes[i]) == LinkAttribute::Carrier(1u8)
}

/// Tells whether the attributes of a link show a carrier.
#[verifier::loop_isolation(false)]
pub fn has_carrier(attributes: &Vec<LinkAttribute>) -> (r: bool)
    ensures
        r == carrier_spec(attributes@),
{
    let mut i: usize = 0;
    while i < attributes.len()
        invariant
            i <= attributes.len(),
            forall|j: int| 0 <= j < i ==> (#[trigger] attributes@[j]) != LinkAttribute::Carrier(1u8),
        decreases attributes.len() - i,
    {
        match &attributes[i] {
            LinkAttribute::Carrier(c) => {
                if *c == 1 {
                    return true;
                }
            },
            _ => {},
        }
        i += 1;
    }
    false
}


/// What is remembered of one interface.
#[derive(Debug, PartialEq, Eq)]
pub struct InterfaceEntry {
    pub iface: String,
    pub mac: Option<String>,
    pub family: String,
    pub index: Option<u32>,
    pub primary: bool,
    pub present: bool,
    /// When the interface was last seen, as an RFC 3339 time.
    pub last_seen: String,
    pub ip_address: Option<String>,
    pub prefix_len: Option<u8>,
    pub gateway: Option<String>,
    pub dns_servers: Option<Vec<String>>,
    pub domain_name: Option<String>,
    pub search_list: Option<Vec<String>>,
}

/// What is remembered of the interfaces from one boot to the next.
#[derive(Debug, PartialEq, Eq)]
pub struct PersistedNetworkState {
    pub interfaces: Vec<InterfaceEntry>,
}

impl Default for PersistedNetworkState {
    fn default() -> (r: Self)
        ensures
            r.interfaces@.len() == 0,
    {
        PersistedNetworkState { interfaces: Vec::new() }
    }
}

/// The index of the first entry of the primary interface, or the
/// number of entries.
pub open spec fn first_primary(entries: Seq<InterfaceEntry>) -> int
    decreases entries.len(),
{
    if entries.len() == 0 {
        0
    } else if entries[0].primary {
        0
    } else {
        1 + first_primary(entries.skip(1))
    }
}

/// Whether an entry belongs to a family of simple names and has an
/// index in it.
pub open spec fn in_family(e: InterfaceEntry) -> bool {
    e.family@ != "protected"@ && e.family@.len() > 0
}

/// `s` with the index `index` taken into account for `family`: the
/// greater of it and the index that `s` holds for the family, or a new
/// entry at the end where `s` holds none.
pub open spec fn index_put(s: Seq<(Seq<char>, u32)>, family: Seq<char>, index: u32) -> Seq<
    (Seq<char>, u32),
>
    decreases s.len(),
{
    if s.len() == 0 {
        seq![(family, index)]
    } else if s[0].0 == family {
        seq![
            (
                family,
                if index > s[0].1 {
                    index
                } else {
                    s[0].1
                },
            ),
        ] + s.skip(1)
    } else {
        seq![s[0]] + index_put(s.skip(1), family, index)
    }
}

/// The greatest index of every family among the first `n` entries:
/// each family once, at the place of its first entry.
pub open spec fn family_max_upto(entries: Seq<InterfaceEntry>, n: nat) -> Seq<(Seq<char>, u32)>
    decreases n,
{
    if n == 0 {
        Seq::empty()
    } else {
        let before = family_max_upto(entries, (n - 1) as nat);
        let e = entries[n - 1];
        if in_family(e) && e.index is Some {
            index_put(before, e.family@, e.index->0)
        } else {
            before
        }
    }
}

/// What a list of family indices says, as text.
pub open spec fn index_views(list: Seq<FamilyIndex>) -> Seq<(Seq<char>, u32)> {
    Seq::new(list.len(), |i: int| (list[i].family@, list[i].index))
}

#[verifier::loop_isolation(false)]
fn put_index(list: &mut Vec<FamilyIndex>, family: &String, index: u32)
    ensures
        index_views(final(list)@) == index_put(index_views(old(list)@), family@, index),
{
    let wanted = to_chars(family.as_str());
    let ghost start = index_views(list@);
    let mut i: usize = 0;
    assert(start.skip(0) == start);
    assert(start.take(0) + index_put(start, family@, index) == index_put(start, family@, index));
    while i < list.len()
        invariant
            i <= list.len(),
            list@ == old(list)@,
            index_put(start, family@, index) == start.take(i as int) + index_put(
                start.skip(i as int),
                family@,
                index,
            ),
        decreases list.len() - i,
    {
        let have = to_chars(list[i].family.as_str());
        assert(start.skip(i as int)[0] == start[i as int]);
        assert(start[i as int] == (list@[i as int].family@, list@[i as int].index));
        if same_chars(have.as_slice(), wanted.as_slice()) {
            let top = if index > list[i].index {
                index
            } else {
                list[i].index
            };
            list.set(i, FamilyIndex { family: family.clone(), index: top });
            assert(index_views(list@) == start.take(i as int) + (seq![(family@, top)]
                + start.skip(i as int).skip(1)));
            return ;
        }
        assert(start.skip(i as int).skip(1) == start.skip(i + 1));
        assert(start.take(i as int) + (seq![start[i as int]] + index_put(
            start.skip(i + 1),
            family@,
            index,
        )) == start.take(i + 1) + index_put(start.skip(i + 1), family@, index));
        i += 1;
    }
    assert(start.take(start.len() as int) == start);
    list.push(FamilyIndex { family: family.clone(), index });
    assert(index_views(list@) == start + seq![(family@, index)]);
}

/// A candidate for the map from hardware addresses to names: an entry
/// of a family of simple names that has both.
pub open spec fn names_entry(e: InterfaceEntry) -> bool {
    in_family(e) && e.mac is Some && e.mac->0@.len() > 0 && e.iface@.len() > 0
}

/// The hardware addresses and names of the candidates among the first
/// `n` entries, in their order.
pub open spec fn name_candidates(entries: Seq<InterfaceEntry>, n: nat) -> Seq<NameValue>
    decreases n,
{
    if n == 0 {
        Seq::empty()
    } else {
        let before = name_candidates(entries, (n - 1) as nat);
        let e = entries[n - 1];
        if names_entry(e) {
            before.push(NameValue { name: e.mac->0, value: e.iface })
        } else {
            before
        }
    }
}

/// The addresses that the first `n` texts denote, in their order;
/// texts that denote none are left out.
pub open spec fn parsed_servers(texts: Seq<String>, n: nat) -> Seq<Seq<u8>>
    decreases n,
{
    if n == 0 {
        Seq::empty()
    } else {
        let before = parsed_servers(texts, (n - 1) as nat);
        match ipv4_spec(texts[n - 1]@) {
            Some(a) => before.push(a),
            None => before,
        }
    }
}

/// The octets of a list of addresses.
pub open spec fn address_views(list: Seq<Ipv4>) -> Seq<Seq<u8>> {
    Seq::new(list.len(), |i: int| list[i]@)
}

/// Whether `lease` is what the entry `e` remembers: its address, prefix
/// and gateway, the servers among its texts that are addresses, its
/// domain and its search list.
pub open spec fn lease_in(e: InterfaceEntry, lease: DhcpLease) -> bool {
    &&& e.ip_address is Some
    &&& e.prefix_len is Some
    &&& e.gateway is Some
    &&& ipv4_spec(e.ip_address->0@) == Some(lease.address.address@)
    &&& ipv4_spec(e.gateway->0@) == Some(lease.address.gateway@)
    &&& lease.address.prefix_len == e.prefix_len->0
    &&& lease.address.prefix_len <= 32
    &&& address_views(lease.resolver.dns_servers@) == match e.dns_servers {
        Some(servers) => parsed_servers(servers@, servers@.len()),
        None => Seq::empty(),
    }
    &&& lease.resolver.domain_name == e.domain_name
    &&& lease.resolver.search_list@ == match e.search_list {
        Some(list) => list@,
        None => Seq::empty(),
    }
}

/// Whether an entry remembers a lease that can be used.
pub open spec fn has_lease(e: InterfaceEntry) -> bool {
    &&& e.ip_address is Some
    &&& e.prefix_len is Some
    &&& e.gateway is Some
    &&& ipv4_spec(e.ip_address->0@) is Some
    &&& ipv4_spec(e.gateway->0@) is Some
    &&& e.prefix_len->0 <= 32
}

#[verifier::loop_isolation(false)]
fn parse_servers(texts: &Vec<String>) -> (r: Vec<Ipv4>)
    ensures
        address_views(r@) == parsed_servers(texts@, texts@.len()),
{
    let mut out: Vec<Ipv4> = Vec::new();
    let mut i: usize = 0;
    assert(address_views(out@) == Seq::<Seq<u8>>::empty());
    while i < texts.len()
        invariant
            i <= texts.len(),
            address_views(out@) == parsed_servers(texts@, i as nat),
        decreases texts.len() - i,
    {
        match parse_ipv4(texts[i].as_str()) {
            Some(a) => {
                let ghost before = out@;
                out.push(a);
                assert(address_views(out@) == address_views(before).push(a@));
            },
            None => {},
        }
        i += 1;
    }
    out
}

impl PersistedNetworkState {
    /// The invariant of the state: at most one interface is the
    /// primary one.
    pub open spec fn wf(&self) -> bool {
        forall|i: int, j: int|
            0 <= i < j < self.interfaces@.len() ==> !((#[trigger] self.interfaces@[i]).primary && (
            #[trigger] self.interfaces@[j]).primary)
    }

    /// The greatest index remembered for every family of simple names.
    #[verifier::loop_isolation(false)]
    pub fn get_family_max_indices(&self) -> (r: Vec<FamilyIndex>)
        ensures
            index_views(r@) == family_max_upto(self.interfaces@, self.interfaces@.len()),
    {
        let protected = to_chars("protected");
        let mut list: Vec<FamilyIndex> = Vec::new();
        let mut i: usize = 0;
        assert(index_views(list@) == Seq::<(Seq<char>, u32)>::empty());
        while i < self.interfaces.len()
            invariant
                i <= self.interfaces.len(),
                index_views(list@) == family_max_upto(self.interfaces@, i as nat),
            decreases self.interfaces.len() - i,
        {
            let e = &self.interfaces[i];
            let family = to_chars(e.family.as_str());
            if !same_chars(family.as_slice(), protected.as_slice()) && family.len() > 0 {
                match e.index {
                    Some(idx) => {
                        put_index(&mut list, &e.family, idx);
                    },
                    None => {},
                }
            }
            i += 1;
        }
        list
    }

    /// The hardware address of the primary interface of the last boot:
    /// that of the first entry marked primary, if it has one.
    #[verifier::loop_isolation(false)]
    pub fn get_primary_mac(&self) -> (r: Option<String>)
        ensures
            r == if first_primary(self.interfaces@) < self.interfaces@.len() {
                match self.interfaces@[first_primary(self.interfaces@)].mac {
                    Some(mac) => if mac@.len() > 0 {
                        Some(mac)
                    } else {
                        None
                    },
                    None => None,
                }
            } else {
                None
            },
    {
        let mut i: usize = 0;
        assert(self.interfaces@.skip(0) == self.interfaces@);
        while i < self.interfaces.len()
            invariant
                i <= self.interfaces.len(),
                first_primary(self.interfaces@) == i + first_primary(
                    self.interfaces@.skip(i as int),
                ),
            decreases self.interfaces.len() - i,
        {
            assert(self.interfaces@.skip(i as int)[0] == self.interfaces@[i as int]);
            if self.interfaces[i].primary {
                return match &self.interfaces[i].mac {
                    Some(mac) => if mac.as_str().unicode_len() > 0 {
                        Some(mac.clone())
                    } else {
                        None
                    },
                    None => None,
                };
            }
            assert(self.interfaces@.skip(i as int).skip(1) == self.interfaces@.skip(i + 1));
            i += 1;
        }
        None
    }

    /// The names remembered for hardware addresses, as a map from the
    /// address to the name: where an address occurs twice, its last
    /// name counts.
    #[verifier::loop_isolation(false)]
    pub fn get_names(&self) -> (r: Vec<NameValue>)
        ensures
            nv_pairs(r@) == nv_pairs(
                nv_map(name_candidates(self.interfaces@, self.interfaces@.len())),
            ),
    {
        let protected = to_chars("protected");
        let mut candidates: Vec<NameValue> = Vec::new();
        let mut i: usize = 0;
        while i < self.interfaces.len()
            invariant
                i <= self.interfaces.len(),
                candidates@ == name_candidates(self.interfaces@, i as nat),
            decreases self.interfaces.len() - i,
        {
            let e = &self.interfaces[i];
            let family = to_chars(e.family.as_str());
            if !same_chars(family.as_slice(), protected.as_slice()) && family.len() > 0 {
                match &e.mac {
                    Some(mac) => {
                        if mac.as_str().unicode_len() > 0 && e.iface.as_str().unicode_len() > 0 {
                            candidates.push(NameValue { name: mac.clone(), value: e.iface.clone() });
                        }
                    },
                    None => {},
                }
            }
            i += 1;
        }
        candidates.to_map()
    }

    /// The lease of the primary interface of the last boot. There is
    /// none unless the first entry marked primary remembers an address,
    /// a prefix and a gateway that can all be read.
    #[verifier::loop_isolation(false)]
    pub fn get_primary_dhcp_lease(&self) -> (r: Option<DhcpLease>)
        ensures
            match r {
                Some(lease) => first_primary(self.interfaces@) < self.interfaces@.len() && lease_in(
                    self.interfaces@[first_primary(self.interfaces@)],
                    lease,
                ) && lease.wf(),
                None => first_primary(self.interfaces@) == self.interfaces@.len() || !has_lease(
                    self.interfaces@[first_primary(self.interfaces@)],
                ),
            },
    {
        let mut i: usize = 0;
        assert(self.interfaces@.skip(0) == self.interfaces@);
        while i < self.interfaces.len()
            invariant
                i <= self.interfaces.len(),
                first_primary(self.interfaces@) == i + first_primary(
                    self.interfaces@.skip(i as int),
                ),
            decreases self.interfaces.len() - i,
        {
            assert(self.interfaces@.skip(i as int)[0] == self.interfaces@[i as int]);
            if self.interfaces[i].primary {
                let e = &self.interfaces[i];
                let (ip, prefix_len, gw) = match (&e.ip_address, e.prefix_len, &e.gateway) {
                    (Some(ip), Some(prefix), Some(gw)) => (ip, prefix, gw),
                    _ => {
                        return None;
                    },
                };
                if prefix_len > 32 {
                    return None;
                }
                let address = match parse_ipv4(ip.as_str()) {
                    Some(a) => a,
                    None => {
                        return None;
                    },
                };
                let gateway = match parse_ipv4(gw.as_str()) {
                    Some(a) => a,
                    None => {
                        return None;
                    },
                };
                let dns_servers: Vec<Ipv4> = match &e.dns_servers {
                    Some(servers) => parse_servers(servers),
                    None => {
                        let none: Vec<Ipv4> = Vec::new();
                        assert(address_views(none@) == Seq::<Seq<u8>>::empty());
                        none
                    },
                };
                let domain_name = match &e.domain_name {
                    Some(dn) => Some(dn.clone()),
                    None => None,
                };
                let search_list = match &e.search_list {
                    Some(list) => crate::vmspec::clone_strings(list),
                    None => Vec::new(),
                };
                return Some(
                    DhcpLease {
                        address: AddressConfig { address, prefix_len, gateway },
                        resolver: ResolverConfig { dns_servers, domain_name, search_list },
                    },
                );
            }
            assert(self.interfaces@.skip(i as int).skip(1) == self.interfaces@.skip(i + 1));
            i += 1;
        }
        None
    }
}

/// The texts of the addresses of `servers`.
pub open spec fn server_texts(servers: Seq<Ipv4>) -> Seq<Seq<char>> {
    Seq::new(servers.len(), |i: int| ipv4_text(servers[i]@))
}

/// Whether the entry `e` is what is remembered of the interface `i`
/// when the interface named `primary_name` is the primary one and got
/// the lease `lease`. Only the entry of the primary interface holds
/// the lease; an empty list of servers or of search domains is not
/// written down.
pub open spec fn entry_of(
    e: InterfaceEntry,
    i: InterfaceInfo,
    primary_name: Seq<char>,
    lease: Option<DhcpLease>,
    now: Seq<char>,
) -> bool {
    &&& e.iface@ == i.name@
    &&& opt_view(e.mac) == match i.mac {
        Some(m) => Some(mac_text(m@)),
        None => None,
    }
    &&& (e.family@, e.index) == family_info_spec(i.name@)
    &&& e.primary == (i.name@ == primary_name)
    &&& e.present
    &&& e.last_seen@ == now
    &&& if e.primary && lease is Some {
        let l = lease->0;
        &&& opt_view(e.ip_address) == Some(ipv4_text(l.address.address@))
        &&& e.prefix_len == Some(l.address.prefix_len)
        &&& opt_view(e.gateway) == Some(ipv4_text(l.address.gateway@))
        &&& match e.dns_servers {
            Some(servers) => l.resolver.dns_servers@.len() > 0 && views(servers@) == server_texts(
                l.resolver.dns_servers@,
            ),
            None => l.resolver.dns_servers@.len() == 0,
        }
        &&& e.domain_name == l.resolver.domain_name
        &&& match e.search_list {
            Some(list) => l.resolver.search_list@.len() > 0 && list@ == l.resolver.search_list@,
            None => l.resolver.search_list@.len() == 0,
        }
    } else {
        &&& e.ip_address is None
        &&& e.prefix_len is None
        &&& e.gateway is None
        &&& e.dns_servers is None
        &&& e.domain_name is None
        &&& e.search_list is None
    }
}

#[verifier::loop_isolation(false)]
fn write_servers(servers: &Vec<Ipv4>) -> (r: Vec<String>)
    ensures
        views(r@) == server_texts(servers@),
{
    let mut out: Vec<String> = Vec::new();
    let mut i: usize = 0;
    while i < servers.len()
        invariant
            i <= servers.len(),
            views(out@) == server_texts(servers@.take(i as int)),
        decreases servers.len() - i,
    {
        let text = ipv4_to_string(&servers[i]);
        let ghost before = out@;
        out.push(text);
        assert(views(out@) == views(before).push(text@));
        assert(server_texts(servers@.take(i + 1)) == server_texts(servers@.take(i as int)).push(
            ipv4_text(servers@[i as int]@),
        ));
        i += 1;
    }
    assert(servers@.take(servers@.len() as int) == servers@);
    out
}

fn entry_for(
    interface: &InterfaceInfo,
    primary_name: &str,
    primary_lease: &Option<DhcpLease>,
    now: &str,
) -> (r: InterfaceEntry)
    ensures
        entry_of(r, *interface, primary_name@, *primary_lease, now@),
{
    let (family, index) = family_info(interface.name.as_str());
    let is_primary = crate::text::same_text(interface.name.as_str(), primary_name);
    let mac = match interface.mac {
        Some(m) => Some(mac_to_string(m)),
        None => None,
    };
    let mut entry = InterfaceEntry {
        iface: interface.name.clone(),
        mac,
        family,
        index,
        primary: is_primary,
        present: true,
        last_seen: from_chars(to_chars(now).as_slice()),
        ip_address: None,
        prefix_len: None,
        gateway: None,
        dns_servers: None,
        domain_name: None,
        search_list: None,
    };
    if is_primary {
        match primary_lease {
            Some(lease) => {
                entry.ip_address = Some(ipv4_to_string(&lease.address.address));
                entry.prefix_len = Some(lease.address.prefix_len);
                entry.gateway = Some(ipv4_to_string(&lease.address.gateway));
                if lease.resolver.dns_servers.len() > 0 {
                    entry.dns_servers = Some(write_servers(&lease.resolver.dns_servers));
                }
                entry.domain_name = match &lease.resolver.domain_name {
                    Some(dn) => Some(dn.clone()),
                    None => None,
                };
                if lease.resolver.search_list.len() > 0 {
                    entry.search_list = Some(
                        crate::vmspec::clone_strings(&lease.resolver.search_list),
                    );
                }
            },
            None => {},
        }
    }
    entry
}

/// Whether no two interfaces have the same name.
pub open spec fn names_differ(interfaces: Seq<InterfaceInfo>) -> bool {
    forall|i: int, j: int|
        0 <= i < j < interfaces.len() ==> (#[trigger] interfaces[i]).name@ != (
        #[trigger] interfaces[j]).name@
}

/// Makes the state to remember from the interfaces of this boot: one
/// entry for each interface, in their order. `now` is the time of the
/// writing as an RFC 3339 text.
#[verifier::loop_isolation(false)]
pub fn persist_interfaces(
    interfaces: &[InterfaceInfo],
    primary_name: &str,
    primary_lease: &Option<DhcpLease>,
    now: &str,
) -> (r: PersistedNetworkState)
    ensures
        r.interfaces@.len() == interfaces@.len(),
        forall|i: int|
            0 <= i < interfaces@.len() ==> entry_of(
                #[trigger] r.interfaces@[i],
                interfaces@[i],
                primary_name@,
                *primary_lease,
                now@,
            ),
        names_differ(interfaces@) ==> r.wf(),
{
    let mut entries: Vec<InterfaceEntry> = Vec::new();
    let mut i: usize = 0;
    while i < interfaces.len()
        invariant
            i <= interfaces.len(),
            entries@.len() == i,
            forall|j: int|
                0 <= j < i ==> entry_of(
                    #[trigger] entries@[j],
                    interfaces@[j],
                    primary_name@,
                    *primary_lease,
                    now@,
                ),
        decreases interfaces.len() - i,
    {
        let entry = entry_for(&interfaces[i], primary_name, primary_lease, now);
        entries.push(entry);
        i += 1;
    }
    let state = PersistedNetworkState { interfaces: entries };
    proof {
        if names_differ(interfaces@) {
            assert forall|a: int, b: int| 0 <= a < b < state.interfaces@.len() implies !((
            #[trigger] state.interfaces@[a]).primary && (#[trigger] state.interfaces@[b]).primary) by {
                assert(entry_of(
                    state.interfaces@[a],
                    interfaces@[a],
                    primary_name@,
                    *primary_lease,
                    now@,
                ));
                assert(entry_of(
                    state.interfaces@[b],
                    interfaces@[b],
                    primary_name@,
                    *primary_lease,
                    now@,
                ));
                assert(interfaces@[a].name@ != interfaces@[b].name@);
            }
        }
    }
    state
}

/// Picks the primary interface by what is remembered: the interface
/// with the hardware address of the primary of the last boot. Without
/// such an interface the machine has to be bootstrapped.
pub fn select_primary_interface(interfaces: &[InterfaceInfo], state: &PersistedNetworkState) -> (r:
    Option<InterfaceInfo>)
    ensures
        r == match state.get_primary_mac_spec() {
            Some(mac) => if index_of_mac(interfaces@, mac@) < interfaces@.len() {
                Some(interfaces@[index_of_mac(interfaces@, mac@)])
            } else {
                None
            },
            None => None,
        },
{
    match state.get_primary_mac() {
        Some(mac) => find_by_mac(interfaces, mac.as_str()),
        None => None,
    }
}

impl PersistedNetworkState {
    /// The hardware address of the primary interface of the last boot.
    pub open spec fn get_primary_mac_spec(&self) -> Option<String> {
        if first_primary(self.interfaces@) < self.interfaces@.len() {
            match self.interfaces@[first_primary(self.interfaces@)].mac {
                Some(mac) => if mac@.len() > 0 {
                    Some(mac)
                } else {
                    None
                },
                None => None,
            }
        } else {
            None
        }
    }
}

/// Plans the renamings that give the chosen primary interface the name
/// of the primary-name policy: none where it is protected or has the
/// name already.
pub fn apply_primary_naming(
    interfaces: &[InterfaceInfo],
    chosen_primary: &InterfaceInfo,
    indices: &Vec<FamilyIndex>,
) -> (r: Result<Vec<Rename>, NetError>)
    ensures
        match desired_name_spec(chosen_primary.name@) {
            Some(desired) => if desired == chosen_primary.name@ {
                r is Ok && r->Ok_0@.len() == 0
            } else {
                match r {
                    Ok(plan) => rename_spec(interfaces@, chosen_primary.ifindex, desired, indices@)
                        == Ok::<Seq<(u32, Seq<char>)>, NetError>(rename_views(plan@)),
                    Err(e) => rename_spec(interfaces@, chosen_primary.ifindex, desired, indices@)
                        == Err::<Seq<(u32, Seq<char>)>, NetError>(e),
                }
            },
            None => r is Ok && r->Ok_0@.len() == 0,
        },
{
    match desired_name_for_primary(chosen_primary.name.as_str()) {
        Some(desired) => {
            if crate::text::same_text(desired.as_str(), chosen_primary.name.as_str()) {
                Ok(Vec::new())
            } else {
                rename_interface_collision(
                    interfaces,
                    chosen_primary.ifindex,
                    desired.as_str(),
                    indices,
                )
            }
        },
        None => Ok(Vec::new()),
    }
}

/// The primary interface as it is after the renamings: the interface
/// that has the name of the policy now, or the chosen one as it was
/// where no interface has that name.
pub fn primary_after_rename(final_interfaces: &[InterfaceInfo], chosen_primary: &InterfaceInfo) -> (r:
    InterfaceInfo)
    ensures
        r == if index_of_name(final_interfaces@, primary_name(chosen_primary.name@))
            < final_interfaces@.len() {
            final_interfaces@[index_of_name(final_interfaces@, primary_name(chosen_primary.name@))]
        } else {
            *chosen_primary
        },
{
    let desired = match desired_name_for_primary(chosen_primary.name.as_str()) {
        Some(name) => name,
        None => chosen_primary.name.clone(),
    };
    match name_in_use(final_interfaces, desired.as_str()) {
        Some(i) => i.clone(),
        None => chosen_primary.clone(),
    }
}

/// The name that an interface is to get back: the name remembered for
/// its hardware address, where that is another name than it has.
pub fn restore_interfaces(interface: &InterfaceInfo, names: &Vec<NameValue>) -> (r: Option<String>)
    ensures
        r == match interface.mac {
            Some(mac) => match nv_find(names@, mac_text(mac@)) {
                Some(nv) => if nv.value@ != interface.name@ {
                    Some(nv.value)
                } else {
                    None
                },
                None => None,
            },
            None => None,
        },
{
    match interface.mac {
        Some(mac) => {
            let text = mac_to_string(mac);
            match names.find(text.as_str()) {
                Some(nv) => if !crate::text::same_text(nv.value.as_str(), interface.name.as_str()) {
                    Some(nv.value)
                } else {
                    None
                },
                None => None,
            }
        },
        None => None,
    }
}

/// `s` without the separators at its end.
pub open spec fn without_slashes(s: Seq<char>) -> Seq<char>
    decreases s.len(),
{
    if s.len() > 0 && s.last() == '/' {
        without_slashes(s.drop_last())
    } else {
        s
    }
}

/// The hardware addresses among the first `n` lines of the list that
/// the instance metadata gives: each line without the separators at its
/// end, empty ones left out.
pub open spec fn macs_upto(list_lines: Seq<Seq<char>>, n: nat) -> Seq<Seq<char>>
    decreases n,
{
    if n == 0 {
        Seq::empty()
    } else {
        let before = macs_upto(list_lines, (n - 1) as nat);
        let mac = without_slashes(list_lines[n - 1]);
        if mac.len() > 0 {
            before.push(mac)
        } else {
            before
        }
    }
}

/// Reads the hardware addresses from the list that the instance
/// metadata gives.
#[verifier::loop_isolation(false)]
pub fn mac_candidates(macs_list: &str) -> (r: Vec<String>)
    ensures
        views(r@) == macs_upto(
            crate::text::lines_spec(macs_list@),
            crate::text::lines_spec(macs_list@).len(),
        ),
{
    let chars = to_chars(macs_list);
    let list_lines = crate::text::lines(chars.as_slice());
    let mut out: Vec<String> = Vec::new();
    let mut i: usize = 0;
    while i < list_lines.len()
        invariant
            i <= list_lines.len(),
            views(out@) == macs_upto(crate::text::rows(list_lines@), i as nat),
        decreases list_lines.len() - i,
    {
        let line = &list_lines[i];
        assert(crate::text::rows(list_lines@)[i as int] == line@);
        let mut n: usize = line.len();
        assert(line@.take(n as int) == line@);
        while n > 0 && line[n - 1] == '/'
            invariant
                n <= line.len(),
                without_slashes(line@) == without_slashes(line@.take(n as int)),
            decreases n,
        {
            assert(line@.take(n as int).drop_last() == line@.take(n - 1));
            n -= 1;
        }
        if n > 0 {
            let mac = slice_chars(line.as_slice(), 0, n);
            assert(line@.subrange(0, n as int) == line@.take(n as int));
            let text = from_chars(mac.as_slice());
            let ghost before = out@;
            out.push(text);
            assert(views(out@) == views(before).push(text@));
        }
        i += 1;
    }
    out
}

/// The path of the device number of an interface in the instance
/// metadata.
pub fn device_number_path(mac: &str) -> (r: String)
    ensures
        r@ == "network/interfaces/macs/"@ + mac@ + "/device-number"@,
{
    let mut out = to_chars("network/interfaces/macs/");
    append_chars(&mut out, to_chars(mac).as_slice());
    append_chars(&mut out, to_chars("/device-number").as_slice());
    from_chars(out.as_slice())
}

/// Whether a device number is that of the primary interface: the
/// number 0, white space around it aside.
pub fn discover_primary_mac_via_imds(device_number: &str) -> (r: bool)
    ensures
        r == (crate::text::trim_spec(device_number@) == seq!['0']),
{
    let chars = to_chars(device_number);
    let body = crate::text::trim(chars.as_slice());
    if body.len() == 1 {
        assert(body@ == seq![body@[0]]);
        body[0] == '0'
    } else {
        false
    }
}

} // verus!
