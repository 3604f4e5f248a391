//! Which of the installed devices to open.

use crate::context::DeviceKind;
use crate::error::{refused_name, Error, Refusal};
use crate::text::{
    ascii_lower, contains, lowered, normalized, number_upto, parse_upto, push_chars, same_text,
    starts_with, text_contains, text_starts_with, to_chars, trimmed,
};
use vstd::prelude::*;

verus! {

/// The device that a user asks for.
pub enum DevicePreference {
    /// The most capable kind that there is.
    Auto,
    /// The first of a kind.
    Kind(DeviceKind),
    /// The one at a position.
    Index(usize),
    /// The first whose name holds this text, whatever its case.
    Name(String),
}

/// The device that a user asks for.
pub enum PreferenceView {
    Auto,
    Kind(DeviceKind),
    Index(usize),
    Name(Seq<char>),
}

impl View for DevicePreference {
    type V = PreferenceView;

    open spec fn view(&self) -> PreferenceView {
        match self {
            DevicePreference::Auto => PreferenceView::Auto,
            DevicePreference::Kind(kind) => PreferenceView::Kind(*kind),
            DevicePreference::Index(index) => PreferenceView::Index(*index),
            DevicePreference::Name(name) => PreferenceView::Name(name@),
        }
    }
}

/// The device that a text asks for, which is in lower case and has no space
/// around it; none where its index is no number.
pub open spec fn preference_of(text: Seq<char>) -> Option<PreferenceView> {
    if text == "auto"@ || text.len() == 0 {
        Some(PreferenceView::Auto)
    } else if text == "discrete"@ {
        Some(PreferenceView::Kind(DeviceKind::DiscreteGpu))
    } else if text == "integrated"@ {
        Some(PreferenceView::Kind(DeviceKind::IntegratedGpu))
    } else if text == "virtual"@ {
        Some(PreferenceView::Kind(DeviceKind::VirtualGpu))
    } else if text == "cpu"@ {
        Some(PreferenceView::Kind(DeviceKind::Cpu))
    } else if starts_with(text, "index:"@) {
        match number_upto(text.skip(6), usize::MAX as u64) {
            Some(index) => Some(PreferenceView::Index(index as usize)),
            None => None,
        }
    } else if starts_with(text, "name:"@) {
        Some(PreferenceView::Name(text.skip(5)))
    } else {
        Some(PreferenceView::Name(text))
    }
}

fn tail(text: &str, from: usize) -> (r: String)
    requires
        from <= text@.len(),
    ensures
        r@ == text@.skip(from as int),
{
    let chars: Vec<char> = to_chars(text);
    let mut r: String = String::new();
    push_chars(&mut r, &chars, from, chars.len());
    assert(r@ =~= text@.skip(from as int));
    r
}

impl DevicePreference {
    /// The device that a setting asks for: `auto`, `discrete`, `integrated`,
    /// `virtual`, `cpu`, `index:N`, `name:TEXT`, or part of a name.
    pub fn parse(value: &str) -> (r: Result<Self, Error>)
        ensures
            match preference_of(ascii_lower(trimmed(value@))) {
                Some(preference) => r is Ok && r->Ok_0@ == preference,
                None => r is Err && r->Err_0@ == refused_name(Refusal::DeviceIndex, value@),
            },
    {
        let text: String = normalized(value);
        proof {
            reveal_strlit("index:");
            reveal_strlit("name:");
        }
        if text.as_str().unicode_len() == 0 || same_text(text.as_str(), "auto") {
            Ok(DevicePreference::Auto)
        } else if same_text(text.as_str(), "discrete") {
            Ok(DevicePreference::Kind(DeviceKind::DiscreteGpu))
        } else if same_text(text.as_str(), "integrated") {
            Ok(DevicePreference::Kind(DeviceKind::IntegratedGpu))
        } else if same_text(text.as_str(), "virtual") {
            Ok(DevicePreference::Kind(DeviceKind::VirtualGpu))
        } else if same_text(text.as_str(), "cpu") {
            Ok(DevicePreference::Kind(DeviceKind::Cpu))
        } else if text_starts_with(text.as_str(), "index:") {
            let digits: Vec<char> = to_chars(tail(text.as_str(), 6).as_str());
            match parse_upto(&digits, usize::MAX as u64) {
                Some(index) => Ok(DevicePreference::Index(index as usize)),
                None => Err(Error::with_name(Refusal::DeviceIndex, value)),
            }
        } else if text_starts_with(text.as_str(), "name:") {
            Ok(DevicePreference::Name(tail(text.as_str(), 5)))
        } else {
            Ok(DevicePreference::Name(text))
        }
    }
}

/// An installed device.
pub struct DeviceSummary {
    pub kind: DeviceKind,
    pub name: String,
}

/// How well a kind serves where the user has no preference; less is better.
pub open spec fn rank_of(kind: DeviceKind) -> int {
    match kind {
        DeviceKind::DiscreteGpu => 0,
        DeviceKind::IntegratedGpu => 1,
        DeviceKind::VirtualGpu => 2,
        DeviceKind::Other => 3,
        DeviceKind::Cpu => 4,
    }
}

/// How well the device at a position meets a preference; less is better, and
/// none is not at all.
pub open spec fn fitness(preference: PreferenceView, devices: Seq<DeviceSummary>, i: int) -> Option<int> {
    match preference {
        PreferenceView::Auto => Some(rank_of(devices[i].kind)),
        PreferenceView::Kind(kind) => if devices[i].kind == kind { Some(0) } else { None },
        PreferenceView::Index(index) => if i == index { Some(0) } else { None },
        PreferenceView::Name(text) => if contains(ascii_lower(devices[i].name@), text) {
            Some(0)
        } else {
            None
        },
    }
}

/// The device at `i` meets a preference no worse than any other, and better
/// than those before it.
pub open spec fn is_choice(preference: PreferenceView, devices: Seq<DeviceSummary>, upto: int, i: int) -> bool {
    &&& 0 <= i < upto
    &&& fitness(preference, devices, i) is Some
    &&& forall|j: int|
        0 <= j < upto ==> match #[trigger] fitness(preference, devices, j) {
            Some(other) => {
                let own = fitness(preference, devices, i)->0;
                own < other || own == other && i <= j
            },
            None => true,
        }
}

fn fitness_at(preference: &DevicePreference, devices: &[DeviceSummary], i: usize) -> (r: Option<u32>)
    requires
        i < devices@.len(),
    ensures
        match fitness(preference@, devices@, i as int) {
            Some(rank) => r is Some && r->0 == rank,
            None => r is None,
        },
{
    match preference {
        DevicePreference::Auto => Some(
            match devices[i].kind {
                DeviceKind::DiscreteGpu => 0,
                DeviceKind::IntegratedGpu => 1,
                DeviceKind::VirtualGpu => 2,
                DeviceKind::Other => 3,
                DeviceKind::Cpu => 4,
            },
        ),
        DevicePreference::Kind(kind) => if devices[i].kind == *kind { Some(0) } else { None },
        DevicePreference::Index(index) => if i == *index { Some(0) } else { None },
        DevicePreference::Name(text) => {
            let name: String = lowered(devices[i].name.as_str());
            if text_contains(name.as_str(), text.as_str()) { Some(0) } else { None }
        },
    }
}

/// The installed device that a preference picks; none where no device meets
/// it.
pub fn choose_device(preference: &DevicePreference, devices: &[DeviceSummary]) -> (r: Option<usize>)
    ensures
        match r {
            Some(i) => is_choice(preference@, devices@, devices@.len() as int, i as int),
            None => forall|j: int|
                0 <= j < devices@.len() ==> #[trigger] fitness(preference@, devices@, j) is None,
        },
{
    let mut best: Option<(usize, u32)> = None;
    let mut i: usize = 0;
    while i < devices.len()
        invariant
            i <= devices@.len(),
            match best {
                Some((at, rank)) => is_choice(preference@, devices@, i as int, at as int) && fitness(
                    preference@,
                    devices@,
                    at as int,
                ) == Some(rank as int),
                None => forall|j: int|
                    0 <= j < i ==> #[trigger] fitness(preference@, devices@, j) is None,
            },
        decreases devices.len() - i,
    {
        if let Some(rank) = fitness_at(preference, devices, i) {
            best = match best {
                Some((at, least)) => if rank < least { Some((i, rank)) } else { Some((at, least)) },
                None => Some((i, rank)),
            };
        }
        i = i + 1;
    }
    match best {
        Some((at, _)) => Some(at),
        None => None,
    }
}

} // verus!
