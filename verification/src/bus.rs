//! Joining the external devices found on the machine to the manifest's
//! declarations.
//!
//! A device found inside a controller is matched by where it answers: a
//! declaration that states an address (or chip-select) must match it, and
//! only a declaration that states none falls back to being "the one remaining
//! candidate". A device resident on the bus carries the id it was stamped
//! with and is matched by that. A declaration is claimed by one device at
//! most (the channels of one board built from a single declaration share
//! it); a device declared by nobody gets an id made from its placement and
//! `declared == false`, never another declaration's identity.
use vstd::prelude::*;

use crate::inspect::DeviceAttachment;

verus! {

/// A manifest declaration of an external device, as far as placement goes.
#[derive(Debug, Clone)]
pub struct ExternalDeviceDecl {
    pub id: String,
    /// The manifest `type:`.
    pub device_type: String,
    /// The controller it is wired to, or the id of the bus switch it sits
    /// behind.
    pub connection: String,
    /// 7-bit I2C address, when the declaration states one.
    pub address: Option<u8>,
    /// Chip-select pin label, for SPI devices.
    pub cs_pin: Option<String>,
    /// Downstream channel of the bus switch it sits behind.
    pub channel: Option<u8>,
}

/// A live external device found hanging off a controller: only what the
/// controller knows of its placement.
#[derive(Debug, Clone, Copy)]
pub struct AttachedDeviceRef<'a> {
    /// `"i2c"` or `"spi"`.
    pub transport: &'static str,
    pub address: Option<u8>,
    pub cs_pin: Option<&'a str>,
    /// Set when the device sits behind an I2C bus switch.
    pub mux_address: Option<u8>,
    pub channel: Option<u8>,
}

/// The text of an optional string.
pub open spec fn opt_text(s: Option<String>) -> Option<Seq<char>> {
    match s {
        Some(t) => Some(t@),
        None => None,
    }
}

/// The text of an optional string slice.
pub open spec fn opt_str_text(s: Option<&str>) -> Option<Seq<char>> {
    match s {
        Some(t) => Some(t@),
        None => None,
    }
}

/// Whether `d` is on an SPI bus.
pub open spec fn is_spi(d: AttachedDeviceRef) -> bool {
    d.transport@ == "spi"@
}

/// Whether declaration `decl` states the key `d` is found by (chip-select for
/// SPI, address otherwise).
pub open spec fn states_key(decl: ExternalDeviceDecl, d: AttachedDeviceRef) -> bool {
    if is_spi(d) {
        decl.cs_pin is Some
    } else {
        decl.address is Some
    }
}

/// Whether declaration `decl` states exactly the key `d` was found by.
pub open spec fn key_hit(decl: ExternalDeviceDecl, d: AttachedDeviceRef) -> bool {
    if is_spi(d) {
        opt_text(decl.cs_pin) == opt_str_text(d.cs_pin)
    } else {
        decl.address == d.address
    }
}

/// Whether effective placement `e` (declaration index, controller, bus-switch
/// address) is a free declaration on controller `bus` at `d`'s bus-switch
/// position.
pub open spec fn is_candidate(
    decls: Seq<ExternalDeviceDecl>,
    e: (usize, String, Option<u8>),
    used: Seq<bool>,
    bus: Seq<char>,
    d: AttachedDeviceRef,
) -> bool {
    &&& !used[e.0 as int]
    &&& e.1@ == bus
    &&& e.2 == d.mux_address
    &&& decls[e.0 as int].channel == d.channel
}

/// The candidate declarations among `effective`, in order.
pub open spec fn candidates(
    decls: Seq<ExternalDeviceDecl>,
    effective: Seq<(usize, String, Option<u8>)>,
    used: Seq<bool>,
    bus: Seq<char>,
    d: AttachedDeviceRef,
) -> Seq<usize>
    decreases effective.len(),
{
    if effective.len() == 0 {
        Seq::empty()
    } else {
        let rest = candidates(decls, effective.drop_last(), used, bus, d);
        if is_candidate(decls, effective.last(), used, bus, d) {
            rest.push(effective.last().0)
        } else {
            rest
        }
    }
}

/// The indices in `idx` whose declaration hits (`exact`) or states no key
/// (`!exact`), in order.
pub open spec fn select(decls: Seq<ExternalDeviceDecl>, idx: Seq<usize>, d: AttachedDeviceRef, exact: bool) -> Seq<
    usize,
>
    decreases idx.len(),
{
    if idx.len() == 0 {
        Seq::empty()
    } else {
        let rest = select(decls, idx.drop_last(), d, exact);
        let decl = decls[idx.last() as int];
        if (exact && key_hit(decl, d)) || (!exact && !states_key(decl, d)) {
            rest.push(idx.last())
        } else {
            rest
        }
    }
}

/// The declaration describing the device `d` found on controller `bus`: the
/// one candidate that states its key, or, when no candidate states it, the
/// one candidate stating no key at all; `None` when that is not unique or
/// the controller is unknown.
pub open spec fn matched_decl(
    decls: Seq<ExternalDeviceDecl>,
    effective: Seq<(usize, String, Option<u8>)>,
    used: Seq<bool>,
    bus: Option<Seq<char>>,
    d: AttachedDeviceRef,
) -> Option<usize> {
    match bus {
        None => None,
        Some(b) => {
            let c = candidates(decls, effective, used, b, d);
            let exact = select(decls, c, d, true);
            let loose = select(decls, c, d, false);
            if exact.len() == 1 {
                Some(exact[0])
            } else if exact.len() > 1 {
                None
            } else if loose.len() == 1 {
                Some(loose[0])
            } else {
                None
            }
        },
    }
}

/// Every index `select` keeps satisfies its filter and comes from `idx`.
proof fn lemma_select_members(decls: Seq<ExternalDeviceDecl>, idx: Seq<usize>, d: AttachedDeviceRef, exact: bool, k: int)
    requires
        0 <= k < select(decls, idx, d, exact).len(),
    ensures
        idx.contains(select(decls, idx, d, exact)[k]),
        exact ==> key_hit(decls[select(decls, idx, d, exact)[k] as int], d),
        !exact ==> !states_key(decls[select(decls, idx, d, exact)[k] as int], d),
    decreases idx.len(),
{
    let rest = select(decls, idx.drop_last(), d, exact);
    if k < rest.len() {
        lemma_select_members(decls, idx.drop_last(), d, exact, k);
        let x = rest[k];
        assert(idx.drop_last().contains(x));
        let w = choose|w: int| 0 <= w < idx.drop_last().len() && idx.drop_last()[w] == x;
        assert(idx[w] == x);
    } else {
        assert(idx[idx.len() - 1] == idx.last());
    }
}

/// Every candidate is a free declaration on the controller at the device's
/// bus-switch position.
proof fn lemma_candidate_members(
    decls: Seq<ExternalDeviceDecl>,
    effective: Seq<(usize, String, Option<u8>)>,
    used: Seq<bool>,
    bus: Seq<char>,
    d: AttachedDeviceRef,
    k: int,
)
    requires
        0 <= k < candidates(decls, effective, used, bus, d).len(),
    ensures
        exists|j: int|
            0 <= j < effective.len() && #[trigger] effective[j].0 == candidates(
                decls,
                effective,
                used,
                bus,
                d,
            )[k] && is_candidate(decls, effective[j], used, bus, d),
    decreases effective.len(),
{
    let rest = candidates(decls, effective.drop_last(), used, bus, d);
    if k < rest.len() {
        lemma_candidate_members(decls, effective.drop_last(), used, bus, d, k);
        let j = choose|j: int|
            0 <= j < effective.drop_last().len() && #[trigger] effective.drop_last()[j].0 == rest[k]
                && is_candidate(decls, effective.drop_last()[j], used, bus, d);
        assert(effective[j] == effective.drop_last()[j]);
    } else {
        assert(effective[effective.len() - 1] == effective.last());
    }
}

/// A matched declaration is a free declaration on the device's controller at
/// its bus-switch position, and one that states an address (or chip-select)
/// states the device's own: a device is never given the identity of a
/// declaration made for another address.
pub proof fn lemma_match_respects_stated_key(
    decls: Seq<ExternalDeviceDecl>,
    effective: Seq<(usize, String, Option<u8>)>,
    used: Seq<bool>,
    bus: Option<Seq<char>>,
    d: AttachedDeviceRef,
)
    ensures
        matched_decl(decls, effective, used, bus, d) matches Some(i) ==> {
            &&& states_key(decls[i as int], d) ==> key_hit(decls[i as int], d)
            &&& bus matches Some(b) && exists|j: int|
                0 <= j < effective.len() && #[trigger] effective[j].0 == i && is_candidate(
                    decls,
                    effective[j],
                    used,
                    b,
                    d,
                )
        },
{
    if let Some(b) = bus {
        let c = candidates(decls, effective, used, b, d);
        let exact = select(decls, c, d, true);
        let loose = select(decls, c, d, false);
        if exact.len() == 1 {
            lemma_select_members(decls, c, d, true, 0);
            let k = choose|k: int| 0 <= k < c.len() && c[k] == exact[0];
            lemma_candidate_members(decls, effective, used, b, d, k);
        } else if exact.len() == 0 && loose.len() == 1 {
            lemma_select_members(decls, c, d, false, 0);
            let k = choose|k: int| 0 <= k < c.len() && c[k] == loose[0];
            lemma_candidate_members(decls, effective, used, b, d, k);
        }
    }
}

/// Whether two strings have the same text.
pub fn str_equal(a: &str, b: &str) -> (r: bool)
    ensures
        r == (a@ == b@),
{
    let n = a.unicode_len();
    let m = b.unicode_len();
    if n != m {
        return false;
    }
    let mut i: usize = 0;
    while i < n
        invariant
            0 <= i <= n,
            n == a@.len(),
            m == b@.len(),
            n == m,
            a@.subrange(0, i as int) == b@.subrange(0, i as int),
        decreases n - i,
    {
        if a.get_char(i) != b.get_char(i) {
            return false;
        }
        assert(a@.subrange(0, i + 1) =~= a@.subrange(0, i as int).push(a@[i as int]));
        assert(b@.subrange(0, i + 1) =~= b@.subrange(0, i as int).push(b@[i as int]));
        i = i + 1;
    }
    assert(a@ =~= a@.subrange(0, n as int));
    assert(b@ =~= b@.subrange(0, n as int));
    true
}

fn opt_str_equal(a: Option<&str>, b: Option<&str>) -> (r: bool)
    ensures
        r == (opt_str_text(a) == opt_str_text(b)),
{
    match (a, b) {
        (Some(x), Some(y)) => str_equal(x, y),
        (None, None) => true,
        _ => false,
    }
}

/// Finds the declaration describing device `d`, found on controller `bus`.
pub fn match_addressed_decl(
    decls: &[ExternalDeviceDecl],
    effective: &[(usize, String, Option<u8>)],
    used: &[bool],
    bus: Option<&str>,
    d: &AttachedDeviceRef,
) -> (r: Option<usize>)
    requires
        forall|k: int|
            0 <= k < effective@.len() ==> (#[trigger] effective@[k]).0 < used@.len()
                && effective@[k].0 < decls@.len(),
    ensures
        r == matched_decl(decls@, effective@, used@, opt_str_text(bus), *d),
{
    let bus_name = match bus {
        Some(b) => b,
        None => return None,
    };
    let spi = str_equal(d.transport, "spi");
    assert(spi == is_spi(*d));
    let mut cands: Vec<usize> = Vec::new();
    let mut i: usize = 0;
    while i < effective.len()
        invariant
            0 <= i <= effective@.len(),
            forall|k: int|
                0 <= k < effective@.len() ==> (#[trigger] effective@[k]).0 < used@.len()
                    && effective@[k].0 < decls@.len(),
            cands@ == candidates(decls@, effective@.subrange(0, i as int), used@, bus_name@, *d),
            forall|k: int| 0 <= k < cands@.len() ==> #[trigger] cands@[k] < decls@.len(),
        decreases effective@.len() - i,
    {
        let e = &effective[i];
        let idx = e.0;
        assert(effective@.subrange(0, i + 1).drop_last() =~= effective@.subrange(0, i as int));
        if !used[idx] && str_equal(e.1.as_str(), bus_name) && e.2 == d.mux_address
            && decls[idx].channel == d.channel {
            cands.push(idx);
        }
        i = i + 1;
    }
    assert(effective@.subrange(0, effective@.len() as int) =~= effective@);
    let mut exact: Vec<usize> = Vec::new();
    let mut loose: Vec<usize> = Vec::new();
    let mut j: usize = 0;
    while j < cands.len()
        invariant
            0 <= j <= cands@.len(),
            spi == is_spi(*d),
            forall|k: int| 0 <= k < cands@.len() ==> #[trigger] cands@[k] < decls@.len(),
            exact@ == select(decls@, cands@.subrange(0, j as int), *d, true),
            loose@ == select(decls@, cands@.subrange(0, j as int), *d, false),
        decreases cands@.len() - j,
    {
        let k = cands[j];
        let decl = &decls[k];
        assert(cands@.subrange(0, j + 1).drop_last() =~= cands@.subrange(0, j as int));
        let (hit, stated) = if spi {
            let decl_pin = match &decl.cs_pin {
                Some(p) => Some(p.as_str()),
                None => None,
            };
            assert(opt_str_text(decl_pin) == opt_text(decl.cs_pin));
            (opt_str_equal(decl_pin, d.cs_pin), decl.cs_pin.is_some())
        } else {
            (decl.address == d.address, decl.address.is_some())
        };
        if hit {
            exact.push(k);
        }
        if !stated {
            loose.push(k);
        }
        j = j + 1;
    }
    assert(cands@.subrange(0, cands@.len() as int) =~= cands@);
    if exact.len() == 1 {
        return Some(exact[0]);
    }
    if exact.len() > 1 {
        return None;
    }
    if loose.len() == 1 {
        Some(loose[0])
    } else {
        None
    }
}


/// A live device found by the walk over the machine.
#[derive(Debug, Clone, Copy)]
pub struct FoundDevice<'a> {
    /// The peripheral it hangs off, when known.
    pub bus: Option<&'a str>,
    pub device: AttachedDeviceRef<'a>,
    /// The `external_devices:` id stamped on a bus-resident model at attach.
    pub declared_id: Option<&'a str>,
    /// Set when this is one of several models built from one declaration.
    pub instance_id: Option<&'a str>,
}

/// The identity the join gives a found device.
#[derive(Debug, Clone)]
pub struct DeviceIdentity {
    /// The declared id, or one made from the placement.
    pub id: String,
    /// The manifest `type:` of the matched declaration.
    pub device_type: Option<String>,
    /// Whether a declaration was matched.
    pub declared: bool,
    pub attachment: DeviceAttachment,
}

/// `p` is the first declaration whose id is `id`.
pub open spec fn is_first_with_id(decls: Seq<ExternalDeviceDecl>, id: Seq<char>, p: int) -> bool {
    &&& 0 <= p < decls.len()
    &&& decls[p].id@ == id
    &&& forall|q: int| 0 <= q < p ==> decls[q].id@ != id
}

/// The first declaration whose id is `id`.
pub open spec fn first_with_id(decls: Seq<ExternalDeviceDecl>, id: Seq<char>) -> Option<int> {
    if exists|p: int| is_first_with_id(decls, id, p) {
        Some(choose|p: int| is_first_with_id(decls, id, p))
    } else {
        None
    }
}

proof fn lemma_first_is(decls: Seq<ExternalDeviceDecl>, id: Seq<char>, p: int)
    requires
        is_first_with_id(decls, id, p),
    ensures
        first_with_id(decls, id) == Some(p),
{
    let c = choose|c: int| is_first_with_id(decls, id, c);
    assert(is_first_with_id(decls, id, c));
    if c < p {
        assert(decls[c].id@ != id);
    } else if c > p {
        assert(decls[p].id@ != id);
    }
}

/// Declaration `i`'s placement: its own controller, unless its connection
/// names another declaration (a bus switch), whose controller and address it
/// then inherits.
pub open spec fn effective_entry(decls: Seq<ExternalDeviceDecl>, i: int) -> (usize, String, Option<u8>) {
    match first_with_id(decls, decls[i].connection@) {
        Some(p) => (i as usize, decls[p].connection, decls[p].address),
        None => (i as usize, decls[i].connection, None),
    }
}

/// Every declaration's placement, in order.
pub open spec fn effective_of(decls: Seq<ExternalDeviceDecl>) -> Seq<(usize, String, Option<u8>)> {
    Seq::new(decls.len(), |i: int| effective_entry(decls, i))
}

/// Whether the walk restricted to controller `filter` leaves `f` out.
pub open spec fn skipped(filter: Option<Seq<char>>, f: FoundDevice) -> bool {
    filter matches Some(x) && opt_str_text(f.bus) != Some(x)
}

/// The declaration `f` is joined to, given which are already claimed: a
/// stamped id names it (free, or shared by the channels of one board); an
/// addressed device goes through [`matched_decl`].
pub open spec fn join_match(decls: Seq<ExternalDeviceDecl>, used: Seq<bool>, f: FoundDevice) -> Option<
    usize,
> {
    match f.declared_id {
        Some(id) => match first_with_id(decls, id@) {
            Some(i) => if !used[i] || f.instance_id is Some {
                Some(i as usize)
            } else {
                None
            },
            None => None,
        },
        None => matched_decl(decls, effective_of(decls), used, opt_str_text(f.bus), f.device),
    }
}

/// The claims after `f` was joined to `m`: a single device claims its
/// declaration; a board's channel does not.
pub open spec fn claim(used: Seq<bool>, m: Option<usize>, f: FoundDevice) -> Seq<bool> {
    match m {
        Some(i) => if f.instance_id is None {
            used.update(i as int, true)
        } else {
            used
        },
        None => used,
    }
}

/// The join over the found devices in walk order: the claims at the end, and
/// each device the filter keeps with the declaration it was joined to.
pub open spec fn join_run(
    decls: Seq<ExternalDeviceDecl>,
    found: Seq<FoundDevice>,
    filter: Option<Seq<char>>,
) -> (Seq<bool>, Seq<(FoundDevice, Option<usize>)>)
    decreases found.len(),
{
    if found.len() == 0 {
        (Seq::new(decls.len(), |i: int| false), Seq::empty())
    } else {
        let (used, out) = join_run(decls, found.drop_last(), filter);
        let f = found.last();
        if skipped(filter, f) {
            (used, out)
        } else {
            let m = join_match(decls, used, f);
            (claim(used, m, f), out.push((f, m)))
        }
    }
}

/// Lower-case hex digits of a byte, two of them.
pub open spec fn hex_byte(a: u8) -> Seq<char> {
    let hi = (a / 16) as int;
    let lo = (a % 16) as int;
    "0123456789abcdef"@.subrange(hi, hi + 1) + "0123456789abcdef"@.subrange(lo, lo + 1)
}

/// The id of a device no declaration describes: its controller (or, unknown,
/// its transport), then `@0x` and the address, or `@` and the chip-select.
pub open spec fn synthesized_id(f: FoundDevice) -> Seq<char> {
    let bus_name = match f.bus {
        Some(b) => b@,
        None => f.device.transport@,
    };
    match (f.device.address, f.device.cs_pin) {
        (Some(a), _) => bus_name + "@0x"@ + hex_byte(a),
        (None, Some(cs)) => bus_name + "@"@ + cs@,
        (None, None) => bus_name,
    }
}

/// The id `f` is reported under when joined to `m`: a board channel's own
/// id, else the declaration's, else the stamped one, else one made from the
/// placement.
pub open spec fn identity_text(decls: Seq<ExternalDeviceDecl>, f: FoundDevice, m: Option<usize>) -> Seq<char> {
    match f.instance_id {
        Some(inst) => inst@,
        None => match m {
            Some(i) => decls[i as int].id@,
            None => match f.declared_id {
                Some(stamped) => stamped@,
                None => synthesized_id(f),
            },
        },
    }
}

/// `r` is what the join reports for `f` joined to `m`.
pub open spec fn is_identity(r: DeviceIdentity, decls: Seq<ExternalDeviceDecl>, f: FoundDevice, m: Option<usize>) -> bool {
    &&& r.id@ == identity_text(decls, f, m)
    &&& r.declared == m is Some
    &&& match m {
        Some(i) => opt_text(r.device_type) == Some(decls[i as int].device_type@),
        None => r.device_type is None,
    }
    &&& r.attachment.transport@ == f.device.transport@
    &&& opt_text(r.attachment.bus) == opt_str_text(f.bus)
    &&& r.attachment.address == f.device.address
    &&& opt_text(r.attachment.cs_pin) == opt_str_text(f.device.cs_pin)
    &&& r.attachment.mux_address == f.device.mux_address
    &&& r.attachment.channel == f.device.channel
}

/// The first declaration whose id is `id`.
fn find_decl(decls: &[ExternalDeviceDecl], id: &str) -> (r: Option<usize>)
    ensures
        match r {
            Some(i) => first_with_id(decls@, id@) == Some(i as int),
            None => first_with_id(decls@, id@) is None,
        },
{
    let mut i: usize = 0;
    while i < decls.len()
        invariant
            0 <= i <= decls@.len(),
            forall|q: int| 0 <= q < i ==> decls@[q].id@ != id@,
        decreases decls@.len() - i,
    {
        if str_equal(decls[i].id.as_str(), id) {
            proof {
                lemma_first_is(decls@, id@, i as int);
            }
            return Some(i);
        }
        i = i + 1;
    }
    None
}

/// Every declaration's placement (see [`effective_entry`]).
pub fn effective_placements(decls: &[ExternalDeviceDecl]) -> (r: Vec<(usize, String, Option<u8>)>)
    ensures
        r@ == effective_of(decls@),
{
    let mut out: Vec<(usize, String, Option<u8>)> = Vec::new();
    let mut i: usize = 0;
    while i < decls.len()
        invariant
            0 <= i <= decls@.len(),
            out@.len() == i,
            forall|k: int| 0 <= k < i ==> #[trigger] out@[k] == effective_entry(decls@, k),
        decreases decls@.len() - i,
    {
        let e = match find_decl(decls, decls[i].connection.as_str()) {
            Some(p) => (i, decls[p].connection.clone(), decls[p].address),
            None => (i, decls[i].connection.clone(), None),
        };
        out.push(e);
        i = i + 1;
    }
    assert(out@ =~= effective_of(decls@));
    out
}

/// The id of a device no declaration describes (see [`synthesized_id`]).
fn synthesized(f: &FoundDevice) -> (r: String)
    ensures
        r@ == synthesized_id(*f),
{
    let mut s = match f.bus {
        Some(b) => String::from_str(b),
        None => String::from_str(f.device.transport),
    };
    let ghost bus_name = s@;
    match f.device.address {
        Some(a) => {
            let digits = "0123456789abcdef";
            proof {
                reveal_strlit("0123456789abcdef");
            }
            let hi = (a / 16) as usize;
            let lo = (a % 16) as usize;
            s.append("@0x");
            s.append(digits.substring_char(hi, hi + 1));
            s.append(digits.substring_char(lo, lo + 1));
            assert(s@ =~= bus_name + "@0x"@ + hex_byte(a));
        },
        None => match f.device.cs_pin {
            Some(cs) => {
                s.append("@");
                s.append(cs);
            },
            None => {},
        },
    }
    s
}

fn opt_owned(s: Option<&str>) -> (r: Option<String>)
    ensures
        opt_text(r) == opt_str_text(s),
{
    match s {
        Some(t) => Some(t.to_owned()),
        None => None,
    }
}

/// What the join reports for `f` joined to `m`.
fn identity(decls: &[ExternalDeviceDecl], f: &FoundDevice, m: Option<usize>) -> (r: DeviceIdentity)
    requires
        m matches Some(i) ==> i < decls@.len(),
    ensures
        is_identity(r, decls@, *f, m),
{
    let id = match f.instance_id {
        Some(inst) => inst.to_owned(),
        None => match m {
            Some(i) => decls[i].id.clone(),
            None => match f.declared_id {
                Some(stamped) => stamped.to_owned(),
                None => synthesized(f),
            },
        },
    };
    let device_type = match m {
        Some(i) => Some(decls[i].device_type.clone()),
        None => None,
    };
    DeviceIdentity {
        id,
        device_type,
        declared: m.is_some(),
        attachment: DeviceAttachment {
            transport: f.device.transport.to_owned(),
            bus: opt_owned(f.bus),
            address: f.device.address,
            cs_pin: opt_owned(f.device.cs_pin),
            mux_address: f.device.mux_address,
            channel: f.device.channel,
        },
    }
}

/// A joined declaration is in range, and a device joined without an
/// instance id was joined to a declaration nobody had claimed.
proof fn lemma_join_match_free(decls: Seq<ExternalDeviceDecl>, used: Seq<bool>, f: FoundDevice)
    requires
        used.len() == decls.len(),
        decls.len() <= usize::MAX,
    ensures
        join_match(decls, used, f) matches Some(i) ==> {
            &&& i < decls.len()
            &&& f.instance_id is None ==> !used[i as int]
        },
{
    if f.declared_id is None {
        let eff = effective_of(decls);
        let b = opt_str_text(f.bus);
        lemma_match_respects_stated_key(decls, eff, used, b, f.device);
        if let Some(i) = matched_decl(decls, eff, used, b, f.device) {
            let bus = b.unwrap();
            let j = choose|j: int|
                0 <= j < eff.len() && #[trigger] eff[j].0 == i && is_candidate(
                    decls,
                    eff[j],
                    used,
                    bus,
                    f.device,
                );
            assert(eff[j] == effective_entry(decls, j));
        }
    } else {
        let id = f.declared_id.unwrap()@;
        if exists|p: int| is_first_with_id(decls, id, p) {
            let p = choose|p: int| is_first_with_id(decls, id, p);
            assert(is_first_with_id(decls, id, p));
        }
    }
}

/// One declaration, one device: two devices that are not channels of one
/// board are never joined to the same declaration, whatever the walk finds;
/// every joined declaration exists and ends up claimed.
pub proof fn lemma_join_claims_once(
    decls: Seq<ExternalDeviceDecl>,
    found: Seq<FoundDevice>,
    filter: Option<Seq<char>>,
)
    requires
        decls.len() <= usize::MAX,
    ensures
        ({
            let (used, out) = join_run(decls, found, filter);
            &&& used.len() == decls.len()
            &&& forall|k: int|
                0 <= k < out.len() && (#[trigger] out[k]).1 is Some ==> out[k].1.unwrap() < decls.len()
            &&& forall|k: int|
                0 <= k < out.len() && (#[trigger] out[k]).0.instance_id is None && out[k].1 is Some
                    ==> used[out[k].1.unwrap() as int]
            &&& forall|k1: int, k2: int|
                #![trigger out[k1], out[k2]]
                0 <= k1 < k2 < out.len() && out[k1].0.instance_id is None && out[k2].0.instance_id
                    is None && out[k1].1 is Some ==> out[k1].1 != out[k2].1
        }),
    decreases found.len(),
{
    if found.len() > 0 {
        lemma_join_claims_once(decls, found.drop_last(), filter);
        let (used0, out0) = join_run(decls, found.drop_last(), filter);
        let f = found.last();
        if !skipped(filter, f) {
            lemma_join_match_free(decls, used0, f);
            let m = join_match(decls, used0, f);
            let used1 = claim(used0, m, f);
            let out1 = out0.push((f, m));
            assert forall|k: int|
                0 <= k < out1.len() && (#[trigger] out1[k]).0.instance_id is None && out1[k].1 is Some
                    implies used1[out1[k].1.unwrap() as int] by {
                if k < out0.len() {
                    assert(out1[k] == out0[k]);
                }
            }
            assert forall|k1: int, k2: int|
                #![trigger out1[k1], out1[k2]]
                0 <= k1 < k2 < out1.len() && out1[k1].0.instance_id is None && out1[k2].0.instance_id
                    is None && out1[k1].1 is Some implies out1[k1].1 != out1[k2].1 by {
                assert(out1[k1] == out0[k1]);
                if k2 < out0.len() {
                    assert(out1[k2] == out0[k2]);
                } else {
                    assert(out0[k1].0.instance_id is None && out0[k1].1 is Some);
                }
            }
            assert forall|k: int|
                0 <= k < out1.len() && (#[trigger] out1[k]).1 is Some implies out1[k].1.unwrap()
                    < decls.len() by {
                if k < out0.len() {
                    assert(out1[k] == out0[k]);
                }
            }
        }
    }
}

/// Joining the found devices to the manifest: each device the filter keeps
/// (all of them without one), in walk order, with the identity
/// [`join_run`] gives it.
pub fn join_devices(decls: &[ExternalDeviceDecl], found: &[FoundDevice], filter: Option<&str>) -> (r:
    Vec<DeviceIdentity>)
    ensures
        r@.len() == join_run(decls@, found@, opt_str_text(filter)).1.len(),
        forall|k: int|
            0 <= k < r@.len() ==> is_identity(
                #[trigger] r@[k],
                decls@,
                join_run(decls@, found@, opt_str_text(filter)).1[k].0,
                join_run(decls@, found@, opt_str_text(filter)).1[k].1,
            ),
{
    let ghost fv = opt_str_text(filter);
    let effective = effective_placements(decls);
    let mut used: Vec<bool> = Vec::new();
    let mut j: usize = 0;
    while j < decls.len()
        invariant
            0 <= j <= decls@.len(),
            used@ == Seq::new(j as nat, |i: int| false),
        decreases decls@.len() - j,
    {
        used.push(false);
        j = j + 1;
    }
    assert(used@ == join_run(decls@, found@.take(0), fv).0);
    let mut out: Vec<DeviceIdentity> = Vec::new();
    let mut i: usize = 0;
    while i < found.len()
        invariant
            0 <= i <= found@.len(),
            fv == opt_str_text(filter),
            decls@.len() <= usize::MAX,
            effective@ == effective_of(decls@),
            used@.len() == decls@.len(),
            used@ == join_run(decls@, found@.take(i as int), fv).0,
            out@.len() == join_run(decls@, found@.take(i as int), fv).1.len(),
            forall|k: int|
                0 <= k < out@.len() ==> is_identity(
                    #[trigger] out@[k],
                    decls@,
                    join_run(decls@, found@.take(i as int), fv).1[k].0,
                    join_run(decls@, found@.take(i as int), fv).1[k].1,
                ),
        decreases found@.len() - i,
    {
        let ghost prev = join_run(decls@, found@.take(i as int), fv);
        assert(found@.take(i + 1).drop_last() =~= found@.take(i as int));
        let f = found[i];
        let skip = match filter {
            Some(x) => !opt_str_equal(f.bus, Some(x)),
            None => false,
        };
        if !skip {
            proof {
                lemma_join_match_free(decls@, used@, f);
            }
            let m: Option<usize> = match f.declared_id {
                Some(id) => match find_decl(decls, id) {
                    Some(k) => if !used[k] || f.instance_id.is_some() {
                        Some(k)
                    } else {
                        None
                    },
                    None => None,
                },
                None => {
                    assert forall|k: int| 0 <= k < effective@.len() implies (#[trigger] effective@[k]).0
                        < used@.len() && effective@[k].0 < decls@.len() by {
                        assert(effective@[k] == effective_entry(decls@, k));
                    }
                    match_addressed_decl(decls, effective.as_slice(), used.as_slice(), f.bus, &f.device)
                },
            };
            assert(m == join_match(decls@, used@, f));
            if let Some(k) = m {
                if f.instance_id.is_none() {
                    used.set(k, true);
                }
            }
            out.push(identity(decls, &f, m));
        }
        i = i + 1;
    }
    assert(found@.take(found@.len() as int) =~= found@);
    out
}


/// The record of an I2C device at `address`, behind bus switch `mux` on
/// channel `channel` when it sits behind one.
pub open spec fn i2c_ref(address: u8, mux: Option<(u8, u8)>) -> AttachedDeviceRef<'static> {
    AttachedDeviceRef {
        transport: "i2c",
        address: Some(address),
        cs_pin: None,
        mux_address: match mux {
            Some(m) => Some(m.0),
            None => None,
        },
        channel: match mux {
            Some(m) => Some(m.1),
            None => None,
        },
    }
}

/// The devices behind bus switch `mux_address`: channel by channel, each
/// channel's devices in order.
pub open spec fn switch_children(mux_address: u8, channels: Seq<Seq<u8>>) -> Seq<AttachedDeviceRef<'static>>
    decreases channels.len(),
{
    if channels.len() == 0 {
        Seq::empty()
    } else {
        let ch = (channels.len() - 1) as u8;
        switch_children(mux_address, channels.drop_last()) + channels.last().map_values(
            |a: u8| i2c_ref(a, Some((mux_address, ch))),
        )
    }
}

/// The devices an I2C slave at `address` stands for: itself, then, when it is
/// a bus switch whose channels hold `channels` (addresses per channel), every
/// device behind it with the switch's address and the channel. A controller
/// sees only the switch, so this is where the devices behind it are found.
pub fn visit_i2c_device(address: u8, channels: Option<&[Vec<u8>]>) -> (r: Vec<AttachedDeviceRef<'static>>)
    requires
        channels matches Some(c) ==> c@.len() <= 256,
    ensures
        r@ == seq![i2c_ref(address, None)] + match channels {
            Some(c) => switch_children(address, c@.map_values(|v: Vec<u8>| v@)),
            None => Seq::empty(),
        },
{
    let mut out: Vec<AttachedDeviceRef<'static>> = Vec::new();
    out.push(AttachedDeviceRef {
        transport: "i2c",
        address: Some(address),
        cs_pin: None,
        mux_address: None,
        channel: None,
    });
    let chans = match channels {
        Some(c) => c,
        None => {
            assert(out@ =~= seq![i2c_ref(address, None)] + Seq::<AttachedDeviceRef<'static>>::empty());
            return out;
        },
    };
    let ghost views = chans@.map_values(|v: Vec<u8>| v@);
    let mut ch: usize = 0;
    while ch < chans.len()
        invariant
            0 <= ch <= chans@.len() <= 256,
            views == chans@.map_values(|v: Vec<u8>| v@),
            out@ == seq![i2c_ref(address, None)] + switch_children(address, views.take(ch as int)),
        decreases chans@.len() - ch,
    {
        let children = &chans[ch];
        let ghost before = out@;
        let mut j: usize = 0;
        while j < children.len()
            invariant
                0 <= j <= children@.len(),
                ch < 256,
                out@ == before + children@.take(j as int).map_values(
                    |a: u8| i2c_ref(a, Some((address, ch as u8))),
                ),
            decreases children@.len() - j,
        {
            out.push(AttachedDeviceRef {
                transport: "i2c",
                address: Some(children[j]),
                cs_pin: None,
                mux_address: Some(address),
                channel: Some(ch as u8),
            });
            assert(children@.take(j + 1).map_values(|a: u8| i2c_ref(a, Some((address, ch as u8))))
                =~= children@.take(j as int).map_values(|a: u8| i2c_ref(a, Some((address, ch as u8)))).push(
                i2c_ref(children@[j as int], Some((address, ch as u8))),
            ));
            j = j + 1;
        }
        assert(children@.take(children@.len() as int) =~= children@);
        assert(views.take(ch + 1).drop_last() =~= views.take(ch as int));
        assert(views.take(ch + 1).last() == children@);
        ch = ch + 1;
    }
    assert(views.take(chans@.len() as int) =~= views);
    out
}

/// The record of an SPI device selected by `cs_pin`.
pub fn visit_spi_device<'a>(cs_pin: &'a str) -> (r: AttachedDeviceRef<'a>)
    ensures
        r.transport@ == "spi"@,
        r.address is None,
        opt_str_text(r.cs_pin) == Some(cs_pin@),
        r.mux_address is None,
        r.channel is None,
{
    AttachedDeviceRef { transport: "spi", address: None, cs_pin: Some(cs_pin), mux_address: None, channel: None }
}

} // verus!
