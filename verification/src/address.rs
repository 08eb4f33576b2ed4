//! Network addresses, and which of a receiver's to use.
use vstd::prelude::*;

verus! {

/// An IP address, as its bits: the first written part is the highest.
#[derive(Clone, Copy, Debug, PartialEq, Eq, Structural)]
pub enum Address {
    V4(u32),
    V6(u128),
}

/// Whether an address is this machine itself: `127.0.0.0/8`, `::1`.
pub open spec fn loops_back(address: Address) -> bool {
    match address {
        Address::V4(bits) => bits / 0x100_0000 == 127,
        Address::V6(bits) => bits == 1,
    }
}

/// Whether an address is valid within one link alone: `169.254.0.0/16`,
/// `fe80::/10`.
pub open spec fn stays_on_link(address: Address) -> bool {
    match address {
        Address::V4(bits) => bits / 0x1_0000 == 0xA9FE,
        Address::V6(bits) => bits / 0x40_0000_0000_0000_0000_0000_0000_0000 == 0x3FA,
    }
}

/// Is the address this machine itself?
pub fn is_loopback(address: Address) -> (res: bool)
    ensures
        res == loops_back(address),
{
    match address {
        Address::V4(bits) => bits / 0x100_0000 == 127,
        Address::V6(bits) => bits == 1,
    }
}

/// Is the address only valid within a link (and does it need the interface
/// index)?
pub fn is_link_local(address: Address) -> (res: bool)
    ensures
        res == stays_on_link(address),
{
    match address {
        Address::V4(bits) => bits / 0x1_0000 == 0xA9FE,
        // The top ten bits.
        Address::V6(bits) => bits / 0x40_0000_0000_0000_0000_0000_0000_0000 == 0x3FA,
    }
}

/// Whether an address can be connected to from elsewhere.
pub open spec fn is_usable(address: Address) -> bool {
    !loops_back(address) && !stays_on_link(address)
}

/// The first usable address of one family.
pub open spec fn first_usable(addresses: Seq<Address>, v4: bool) -> Option<Address>
    decreases addresses.len(),
{
    if addresses.len() == 0 {
        None
    } else if is_usable(addresses[0]) && addresses[0] is V4 == v4 {
        Some(addresses[0])
    } else {
        first_usable(addresses.skip(1), v4)
    }
}

/// The best of some addresses: the first usable IPv4, else the first usable
/// IPv6.
pub open spec fn best_of(addresses: Seq<Address>) -> Option<Address> {
    match first_usable(addresses, true) {
        Some(address) => Some(address),
        None => first_usable(addresses, false),
    }
}

fn find_usable(addresses: &[Address], v4: bool) -> (res: Option<Address>)
    ensures
        res == first_usable(addresses@, v4),
{
    let mut i: usize = 0;
    assert(addresses@.skip(0) =~= addresses@);
    while i < addresses.len()
        invariant
            i <= addresses@.len(),
            first_usable(addresses@, v4) == first_usable(addresses@.skip(i as int), v4),
        decreases addresses@.len() - i,
    {
        assert(addresses@.skip(i as int).skip(1) =~= addresses@.skip(i + 1));
        let address = addresses[i];
        let is_v4 = match address {
            Address::V4(_) => true,
            Address::V6(_) => false,
        };
        if !is_loopback(address) && !is_link_local(address) && is_v4 == v4 {
            return Some(address);
        }
        i += 1;
    }
    None
}

/// Picks, among the announced addresses, one that can actually be connected to.
///
/// IPv4 first (most receivers announce nothing else), then routable IPv6.
/// **Link-local addresses are excluded**: one is only usable together with the
/// interface index.
pub fn best_address(addresses: &[Address]) -> (res: Option<Address>)
    ensures
        res == best_of(addresses@),
{
    match find_usable(addresses, true) {
        Some(address) => Some(address),
        None => find_usable(addresses, false),
    }
}

proof fn first_usable_is_usable(addresses: Seq<Address>, v4: bool)
    ensures
        match first_usable(addresses, v4) {
            Some(address) => is_usable(address) && addresses.contains(address) && address is V4
                == v4,
            None => forall|i: int|
                0 <= i < addresses.len() ==> !(is_usable(#[trigger] addresses[i]) && addresses[i]
                    is V4 == v4),
        },
    decreases addresses.len(),
{
    if addresses.len() > 0 {
        let rest = addresses.skip(1);
        first_usable_is_usable(rest, v4);
        if is_usable(addresses[0]) && addresses[0] is V4 == v4 {
            assert(addresses.contains(addresses[0]));
        } else if let Some(address) = first_usable(rest, v4) {
            let i = choose|i: int| 0 <= i < rest.len() && rest[i] == address;
            assert(addresses[i + 1] == address);
        } else {
            assert forall|i: int| 0 <= i < addresses.len() implies !(is_usable(
                #[trigger] addresses[i],
            ) && addresses[i] is V4 == v4) by {
                if i > 0 {
                    assert(rest[i - 1] == addresses[i]);
                }
            }
        }
    }
}

/// A link-local or loopback address is never chosen; some address is chosen
/// wherever one is usable, and an IPv4 one wherever one of those is.
pub proof fn unusable_addresses_are_never_chosen(addresses: Seq<Address>)
    ensures
        match best_of(addresses) {
            Some(address) => {
                &&& is_usable(address)
                &&& addresses.contains(address)
                &&& address is V6 ==> forall|i: int|
                    0 <= i < addresses.len() && (#[trigger] addresses[i]) is V4 ==> !is_usable(
                        addresses[i],
                    )
            },
            None => forall|i: int| 0 <= i < addresses.len() ==> !is_usable(#[trigger] addresses[i]),
        },
{
    first_usable_is_usable(addresses, true);
    first_usable_is_usable(addresses, false);
}

/// An address loops back where its first part is 127, and stays on its link where
/// its first two are 169 and 254; of the longer kind, where it is one, and where
/// its first sixteen bits lie from `fe80` to `febf`.
pub proof fn an_address_goes_by_its_first_parts(
    a: u8,
    b: u8,
    c: u8,
    d: u8,
    group: u16,
    rest: u128,
)
    requires
        rest < 0x1_0000_0000_0000_0000_0000_0000_0000,
    ensures
        ({
            let short = Address::V4((a * 0x100_0000 + b * 0x1_0000 + c * 256 + d) as u32);
            let long = Address::V6((group * 0x1_0000_0000_0000_0000_0000_0000_0000 + rest) as u128);
            &&& loops_back(short) <==> a == 127
            &&& stays_on_link(short) <==> a == 169 && b == 254
            &&& loops_back(long) <==> group == 0 && rest == 1
            &&& stays_on_link(long) <==> 0xFE80 <= group <= 0xFEBF
        }),
{
}

/// The address chosen is the first usable one of the shorter kind; only where there
/// is none, the first usable one of the longer.
pub proof fn the_first_usable_address_is_chosen(addresses: Seq<Address>, i: int)
    requires
        0 <= i < addresses.len(),
        is_usable(addresses[i]),
        forall|j: int|
            0 <= j < i && (#[trigger] addresses[j]) is V4 == addresses[i] is V4 ==> !is_usable(
                addresses[j],
            ),
        addresses[i] is V4 || forall|j: int|
            0 <= j < addresses.len() && (#[trigger] addresses[j]) is V4 ==> !is_usable(
                addresses[j],
            ),
    ensures
        best_of(addresses) == Some(addresses[i]),
{
    the_first_is_found(addresses, addresses[i] is V4, i);
    first_usable_is_usable(addresses, true);
    if let Some(address) = first_usable(addresses, true) {
        let k = choose|k: int| 0 <= k < addresses.len() && addresses[k] == address;
        assert(addresses[k] is V4);
    }
}

proof fn the_first_is_found(addresses: Seq<Address>, v4: bool, i: int)
    requires
        0 <= i < addresses.len(),
        is_usable(addresses[i]),
        addresses[i] is V4 == v4,
        forall|j: int|
            0 <= j < i && (#[trigger] addresses[j]) is V4 == v4 ==> !is_usable(addresses[j]),
    ensures
        first_usable(addresses, v4) == Some(addresses[i]),
    decreases addresses.len(),
{
    if i > 0 {
        let rest = addresses.skip(1);
        assert(!(is_usable(addresses[0]) && addresses[0] is V4 == v4));
        assert forall|j: int| 0 <= j < i - 1 && (#[trigger] rest[j]) is V4
            == v4 implies !is_usable(rest[j]) by {
            assert(rest[j] == addresses[j + 1]);
        }
        the_first_is_found(rest, v4, i - 1);
    }
}

} // verus!
