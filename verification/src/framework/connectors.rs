//! Naming the connectors of a DRM device, choosing a CRTC for each and reading their modes.

use vstd::prelude::*;
use vstd::string::StringExecFns;

use crate::decimal::{decimal, to_decimal};
use crate::desktop_layout::output::Mode;
use crate::geometry::Size;
use crate::seqs::{first_where, lemma_first_where, lemma_first_where_found, lemma_first_where_none};

verus! {

/// The interface of a connector, as the DRM device reports it.
#[derive(Clone, Copy, Debug, PartialEq, Eq, Structural)]
pub enum ConnectorInterface {
    Unknown,
    VGA,
    DVII,
    DVID,
    DVIA,
    Composite,
    SVideo,
    LVDS,
    Component,
    NinePinDIN,
    DisplayPort,
    HDMIA,
    HDMIB,
    TV,
    EmbeddedDisplayPort,
    Virtual,
    DSI,
    DPI,
}

/// The short name of an interface in output names: the usual abbreviation of the common
/// ones, the interface's own name for the others.
pub open spec fn short_name(i: ConnectorInterface) -> Seq<char> {
    match i {
        ConnectorInterface::Unknown => "Unknown"@,
        ConnectorInterface::VGA => "VGA"@,
        ConnectorInterface::DVII => "DVI-I"@,
        ConnectorInterface::DVID => "DVI-D"@,
        ConnectorInterface::DVIA => "DVI-A"@,
        ConnectorInterface::Composite => "Composite"@,
        ConnectorInterface::SVideo => "S-VIDEO"@,
        ConnectorInterface::LVDS => "LVDS"@,
        ConnectorInterface::Component => "Component"@,
        ConnectorInterface::NinePinDIN => "NinePinDIN"@,
        ConnectorInterface::DisplayPort => "DP"@,
        ConnectorInterface::HDMIA => "HDMI-A"@,
        ConnectorInterface::HDMIB => "HDMI-B"@,
        ConnectorInterface::TV => "TV"@,
        ConnectorInterface::EmbeddedDisplayPort => "eDP"@,
        ConnectorInterface::Virtual => "Virtual"@,
        ConnectorInterface::DSI => "DSI"@,
        ConnectorInterface::DPI => "DPI"@,
    }
}

/// The name of the output on connector `id` of interface `i`: the interface's short name, a
/// hyphen and the connector's number.
pub open spec fn connector_name_spec(i: ConnectorInterface, id: u32) -> Seq<char> {
    short_name(i) + "-"@ + decimal(id as nat)
}

fn interface_short_name(i: ConnectorInterface) -> (s: &'static str)
    ensures
        s@ == short_name(i),
{
    match i {
        ConnectorInterface::Unknown => "Unknown",
        ConnectorInterface::VGA => "VGA",
        ConnectorInterface::DVII => "DVI-I",
        ConnectorInterface::DVID => "DVI-D",
        ConnectorInterface::DVIA => "DVI-A",
        ConnectorInterface::Composite => "Composite",
        ConnectorInterface::SVideo => "S-VIDEO",
        ConnectorInterface::LVDS => "LVDS",
        ConnectorInterface::Component => "Component",
        ConnectorInterface::NinePinDIN => "NinePinDIN",
        ConnectorInterface::DisplayPort => "DP",
        ConnectorInterface::HDMIA => "HDMI-A",
        ConnectorInterface::HDMIB => "HDMI-B",
        ConnectorInterface::TV => "TV",
        ConnectorInterface::EmbeddedDisplayPort => "eDP",
        ConnectorInterface::Virtual => "Virtual",
        ConnectorInterface::DSI => "DSI",
        ConnectorInterface::DPI => "DPI",
    }
}

/// The name of the output on connector `id` of interface `interface`, such as `HDMI-A-1`.
pub fn connector_name(interface: ConnectorInterface, id: u32) -> (s: String)
    ensures
        s@ == connector_name_spec(interface, id),
{
    let mut s = String::from_str(interface_short_name(interface));
    s.append("-");
    let number = to_decimal(id as usize);
    s.append(number.as_str());
    s
}

/// The CRTC is not used by another output.
pub open spec fn free_in(taken: Seq<u32>) -> spec_fn(u32) -> bool {
    |c: u32| !taken.contains(c)
}

/// The first of the `possible` CRTCs that no other output uses.
pub open spec fn first_free(possible: Seq<u32>, taken: Seq<u32>) -> Option<u32> {
    match first_where(possible, free_in(taken)) {
        Some(k) => Some(possible[k]),
        None => None,
    }
}

/// Whether `c` is among the `taken` CRTCs.
fn is_taken(taken: &Vec<u32>, c: u32) -> (b: bool)
    ensures
        b == taken@.contains(c),
{
    let m = taken.len();
    for t in 0..m
        invariant
            m == taken@.len(),
            forall|u: int| 0 <= u < t ==> taken@[u] != c,
    {
        if taken[t] == c {
            return true;
        }
    }
    false
}

/// The first of the `possible` CRTCs of a connector's encoders, in order, that no output
/// uses yet; `None` when all are taken.
pub fn pick_crtc(possible: &Vec<u32>, taken: &Vec<u32>) -> (r: Option<u32>)
    ensures
        r == first_free(possible@, taken@),
{
    match next_free(possible, taken, 0) {
        Some(k) => {
            assert(possible@.skip(0) =~= possible@);
            Some(possible[k])
        },
        None => {
            assert(possible@.skip(0) =~= possible@);
            None
        },
    }
}

/// The index of the first of `candidates`, at `from` or after it, that no output uses.
pub open spec fn first_free_from(candidates: Seq<u32>, taken: Seq<u32>, from: int) -> Option<int> {
    match first_where(candidates.skip(from), free_in(taken)) {
        Some(k) => Some(from + k),
        None => None,
    }
}

fn next_free(candidates: &Vec<u32>, taken: &Vec<u32>, from: usize) -> (r: Option<usize>)
    requires
        from <= candidates.len(),
    ensures
        match r {
            Some(k) => first_free_from(candidates@, taken@, from as int) == Some(k as int) && k
                < candidates.len(),
            None => first_free_from(candidates@, taken@, from as int) is None,
        },
{
    let ghost rest = candidates@.skip(from as int);
    let ghost pred = free_in(taken@);
    let n = candidates.len();
    let mut i = from;
    while i < n
        invariant
            from <= i <= n,
            n == candidates@.len(),
            rest == candidates@.skip(from as int),
            pred == free_in(taken@),
            forall|j: int| 0 <= j < i - from ==> !pred(#[trigger] rest[j]),
        decreases n - i,
    {
        let c = candidates[i];
        if !is_taken(taken, c) {
            proof {
                assert(rest[i - from] == c);
                lemma_first_where_found(rest, pred, i - from);
            }
            return Some(i);
        }
        assert(rest[i - from] == c);
        i = i + 1;
    }
    proof {
        lemma_first_where_none(rest, pred);
    }
    None
}

/// What the scan of one connector does next: set the connector up on the CRTC at `index` of
/// its candidates, or stop, with the CRTC it was bound to or with none.
#[derive(Clone, Copy, Debug, PartialEq, Eq, Structural)]
pub enum CrtcAction {
    Try { index: usize, crtc: u32 },
    Done(Option<u32>),
}

/// What came of the last step of the scan of one connector: it starts, or setting it up on the
/// CRTC at `index` failed or succeeded.
#[derive(Clone, Copy, Debug, PartialEq, Eq, Structural)]
pub enum CrtcEvent {
    Start,
    Failed { index: usize },
    Succeeded { index: usize },
}

/// Try the first candidate at `from` or after it that no output uses, or stop without a CRTC.
pub open spec fn try_from(candidates: Seq<u32>, taken: Seq<u32>, from: int) -> CrtcAction {
    match first_free_from(candidates, taken, from) {
        Some(k) => CrtcAction::Try { index: k as usize, crtc: candidates[k] },
        None => CrtcAction::Done(None),
    }
}

/// The next step of binding a connector to a CRTC. `candidates` are the CRTCs its encoders
/// can drive, encoder after encoder, and `taken` those that other outputs use. The scan tries
/// the free candidates in order; when setting the connector up on one fails it goes on with
/// the next, and the first that succeeds is the connector's only CRTC.
pub fn crtc_step(candidates: &Vec<u32>, taken: &Vec<u32>, event: CrtcEvent) -> (a: CrtcAction)
    requires
        event matches CrtcEvent::Failed { index } ==> index < candidates.len(),
        event matches CrtcEvent::Succeeded { index } ==> index < candidates.len(),
    ensures
        a == match event {
            CrtcEvent::Start => try_from(candidates@, taken@, 0),
            CrtcEvent::Failed { index } => try_from(candidates@, taken@, index + 1),
            CrtcEvent::Succeeded { index } => CrtcAction::Done(Some(candidates@[index as int])),
        },
{
    let from = match event {
        CrtcEvent::Start => 0,
        CrtcEvent::Failed { index } => index + 1,
        CrtcEvent::Succeeded { index } => {
            return CrtcAction::Done(Some(candidates[index]));
        },
    };
    match next_free(candidates, taken, from) {
        Some(k) => CrtcAction::Try { index: k, crtc: candidates[k] },
        None => CrtcAction::Done(None),
    }
}

/// The scan only moves forward and tries only free CRTCs: after a failure at `index`, the next
/// try is on a later candidate that no output uses, and every candidate it skips is taken;
/// when it stops without a CRTC, every later candidate is taken.
pub proof fn law_crtc_scan_tries_the_free_candidates_in_order(
    candidates: Seq<u32>,
    taken: Seq<u32>,
    index: int,
)
    requires
        0 <= index < candidates.len() <= usize::MAX,
    ensures
        match try_from(candidates, taken, index + 1) {
            CrtcAction::Try { index: k, crtc } => index < k < candidates.len() && crtc
                == candidates[k as int] && !taken.contains(crtc) && forall|j: int|
                index < j < k ==> taken.contains(#[trigger] candidates[j]),
            CrtcAction::Done(r) => r is None && forall|j: int|
                index < j < candidates.len() ==> taken.contains(#[trigger] candidates[j]),
        },
{
    let rest = candidates.skip(index + 1);
    lemma_first_where(rest, free_in(taken));
    match first_where(rest, free_in(taken)) {
        Some(k) => {
            assert forall|j: int| index < j < index + 1 + k implies taken.contains(
                #[trigger] candidates[j],
            ) by {
                assert(rest[j - index - 1] == candidates[j]);
                assert(!free_in(taken)(rest[j - index - 1]));
            }
            assert(rest[k] == candidates[index + 1 + k]);
            assert(free_in(taken)(rest[k]));
            assert(((index + 1 + k) as usize) as int == index + 1 + k);
        },
        None => {
            assert forall|j: int| index < j < candidates.len() implies taken.contains(
                #[trigger] candidates[j],
            ) by {
                assert(rest[j - index - 1] == candidates[j]);
                assert(!free_in(taken)(rest[j - index - 1]));
            }
        },
    }
}

/// The output mode of a DRM mode of `w` by `h` pixels refreshed `vrefresh` times a second: the
/// refresh rate is given in millihertz.
pub fn wl_mode(w: u16, h: u16, vrefresh: u32) -> (m: Mode)
    requires
        vrefresh * 1000 <= u32::MAX,
    ensures
        m.size == (Size { w: w as i32, h: h as i32 }),
        m.refresh == (vrefresh * 1000) as i32,
{
    Mode { size: Size { w: w as i32, h: h as i32 }, refresh: (vrefresh * 1000) as i32 }
}

/// The mode is `m`.
pub open spec fn is_mode(m: Mode) -> spec_fn(Mode) -> bool {
    |x: Mode| x == m
}

/// The index of the first of `modes` that equals `m`, the DRM mode the chosen output mode came
/// from.
pub fn mode_index(modes: &Vec<Mode>, m: Mode) -> (r: Option<usize>)
    ensures
        match r {
            Some(k) => first_where(modes@, is_mode(m)) == Some(k as int),
            None => first_where(modes@, is_mode(m)) is None,
        },
{
    let n = modes.len();
    for i in 0..n
        invariant
            n == modes@.len(),
            forall|j: int| 0 <= j < i ==> !is_mode(m)(#[trigger] modes@[j]),
    {
        if modes[i] == m {
            proof {
                lemma_first_where_found(modes@, is_mode(m), i as int);
            }
            return Some(i);
        }
    }
    proof {
        lemma_first_where_none(modes@, is_mode(m));
    }
    None
}

} // verus!
